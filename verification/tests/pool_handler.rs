use webshot::handler::{
    pdf_plan, reply_status, resolve_screenshot_task, screenshot_plan, use_cached,
    queue_down_status, RenderPlan,
};
use webshot::pdf::{PDFRequestParams, PDFRequestQSParams};
use webshot::pool::{
    worker_reaction, PDFWorker, RenderOutcome, ScreenshotWorker, Supervisor, TaskQueue,
    WorkerAction, WorkerClass,
};
use webshot::screenshot::{
    default_buckets_screenshot_task_params, ImageFormat, ScreenshotRequestQSParams,
};

fn live(s: &Supervisor) -> usize {
    s.alive.iter().filter(|a| **a).count()
}

#[test]
fn pool_converges_after_crashes() {
    let mut s = Supervisor::new(2, 1);
    assert_eq!(live(&s), 3);
    // Two workers crash, one of them a PDF worker.
    s.on_crash(0);
    s.on_crash(2);
    assert_eq!(live(&s), 1);
    // The supervisor replaces them in crash order, each in its own class.
    let (id, class) = s.next_replacement().unwrap();
    assert_eq!((id, class), (0, WorkerClass::Screenshot));
    let (id, class) = s.next_replacement().unwrap();
    assert_eq!((id, class), (2, WorkerClass::Pdf));
    assert!(s.next_replacement().is_none());
    assert_eq!(live(&s), 3);
    // A second round of crashes converges again.
    s.on_crash(1);
    let (id, class) = s.next_replacement().unwrap();
    assert_eq!((id, class), (1, WorkerClass::Screenshot));
    assert_eq!(live(&s), 3);
}

#[test]
fn queue_is_fifo_and_ids_are_unique() {
    let mut q: TaskQueue<&str> = TaskQueue::new();
    let a = q.enqueue("first");
    let b = q.enqueue("second");
    let c = q.enqueue("third");
    assert!(a != b && b != c && a != c);
    assert_eq!(q.dequeue().unwrap(), (a, "first"));
    assert_eq!(q.dequeue().unwrap(), (b, "second"));
    assert_eq!(q.dequeue().unwrap(), (c, "third"));
    assert!(q.dequeue().is_none());
    // A task id never comes back, even across later enqueues.
    let d = q.enqueue("fourth");
    assert!(d != a && d != b && d != c);
}

#[test]
fn worker_policy_follows_the_failure_taxonomy() {
    assert_eq!(
        worker_reaction(RenderOutcome::Completed { signed_url: "u".to_string() }),
        (Some("u".to_string()), WorkerAction::Continue)
    );
    assert_eq!(
        worker_reaction(RenderOutcome::NavigationTimeout),
        (None, WorkerAction::ReplaceSelf)
    );
    assert_eq!(
        worker_reaction(RenderOutcome::NavigationFailed),
        (None, WorkerAction::Continue)
    );
    assert_eq!(worker_reaction(RenderOutcome::CaptureFailed), (None, WorkerAction::Continue));
    assert_eq!(worker_reaction(RenderOutcome::StoreFailed), (None, WorkerAction::Continue));
    assert_eq!(ScreenshotWorker::new(1).id, 1);
    assert_eq!(PDFWorker::new(3).id, 3);
}

#[test]
fn reply_maps_to_redirect_or_error() {
    assert_eq!(
        reply_status(Some("a/b.png?x=1".to_string())),
        (302, Some("a/b.png?x=1".to_string()))
    );
    assert_eq!(reply_status(None), (500, None));
    assert_eq!(queue_down_status(), 503);
}

#[test]
fn freshness_rules_the_cache() {
    // Fresh: the window still covers the clock.
    assert!(use_cached(true, Some(1000), Some(60), 1050));
    // The boundary itself still serves the stored artifact.
    assert!(use_cached(true, Some(1000), Some(60), 1060));
    // Stale: one second past the window.
    assert!(!use_cached(true, Some(1000), Some(60), 1061));
    // No ttl, no artifact, or no date: always render.
    assert!(!use_cached(true, Some(1000), None, 1050));
    assert!(!use_cached(false, Some(1000), Some(60), 1050));
    assert!(!use_cached(true, None, Some(60), 1050));
}

fn cold_request() -> ScreenshotRequestQSParams {
    ScreenshotRequestQSParams {
        url: "https://example.com/".to_string(),
        format: Some(ImageFormat::Png),
        quality: None,
        width: Some(800),
        height: Some(600),
        scale: Some(10),
        ttl: Some(60),
        full_page: None,
        omit_background: None,
    }
}

#[test]
fn cold_screenshot_renders_then_serves_the_cache() {
    let params = cold_request();
    let defaults = default_buckets_screenshot_task_params().unwrap();
    // Cold: nothing stored yet, so the handler enqueues a resolved task.
    let plan = screenshot_plan(&params, &defaults, "default", false, None, 1000);
    let path = match plan {
        RenderPlan::Render { task, path } => {
            assert_eq!(task.url, "https://example.com/");
            assert_eq!(task.format, ImageFormat::Png);
            assert_eq!(task.quality, 40);
            assert_eq!(task.width, 800);
            assert_eq!(task.height, 600);
            assert_eq!(task.scale_tenths, 10);
            assert_eq!(task.bucket, "default");
            assert!(path.ends_with(".png"));
            assert!(path.starts_with(&task.filename));
            path
        },
        _ => panic!("expected a render"),
    };
    // The identical request within the window serves the stored file.
    let plan = screenshot_plan(&params, &defaults, "default", true, Some(1000), 1030);
    match plan {
        RenderPlan::UseCached { path: p } => assert_eq!(p, path),
        _ => panic!("expected the cache"),
    }
    // After the window has passed, a new render occurs.
    let plan = screenshot_plan(&params, &defaults, "default", true, Some(1000), 1061);
    assert!(matches!(plan, RenderPlan::Render { .. }));
}

#[test]
fn probe_path_follows_the_bucket_default_format() {
    // With `format` unset and a PNG bucket default, the probe path ends
    // the way the worker's write will — no cache slot can go stale by a
    // mismatched extension.
    let mut params = cold_request();
    params.format = None;
    let mut defaults = default_buckets_screenshot_task_params().unwrap();
    defaults.format = Some(ImageFormat::Png);
    match screenshot_plan(&params, &defaults, "default", false, None, 0) {
        RenderPlan::Render { task, path } => {
            assert_eq!(task.format, ImageFormat::Png);
            assert_eq!(path, format!("{}.png", task.filename));
        },
        _ => panic!("expected a render"),
    }
}

#[test]
fn explicit_default_and_unset_share_one_cache_slot() {
    // `format=jpeg` written out and `format` unset under the JPEG
    // default resolve to the same request, hence one artifact path.
    let defaults = default_buckets_screenshot_task_params().unwrap();
    let mut a = cold_request();
    a.format = Some(ImageFormat::Jpeg);
    let mut b = cold_request();
    b.format = None;
    let pa = match screenshot_plan(&a, &defaults, "default", false, None, 0) {
        RenderPlan::Render { path, .. } => path,
        _ => panic!("expected a render"),
    };
    let pb = match screenshot_plan(&b, &defaults, "default", false, None, 0) {
        RenderPlan::Render { path, .. } => path,
        _ => panic!("expected a render"),
    };
    assert_eq!(pa, pb);
    let mut c = cold_request();
    c.quality = Some(40);
    let mut d = cold_request();
    d.quality = None;
    let pc = match screenshot_plan(&c, &defaults, "default", false, None, 0) {
        RenderPlan::Render { path, .. } => path,
        _ => panic!("expected a render"),
    };
    let pd = match screenshot_plan(&d, &defaults, "default", false, None, 0) {
        RenderPlan::Render { path, .. } => path,
        _ => panic!("expected a render"),
    };
    assert_eq!(pc, pd);
}

#[test]
fn pdf_plan_resolves_scale_and_background() {
    let params = PDFRequestQSParams {
        url: "https://example.com/doc".to_string(),
        scale: None,
        ttl: Some(300),
        omit_background: Some(true),
    };
    let defaults = PDFRequestParams { scale: Some(5), ttl: Some(60), omit_background: None };
    let plan = pdf_plan(&params, &defaults, "default", false, None, 10);
    match plan {
        RenderPlan::Render { task, path } => {
            assert_eq!(task.scale_tenths, 5);
            assert!(!task.print_background);
            assert_eq!(path, format!("{}.pdf", task.filename));
        },
        _ => panic!("expected a render"),
    }
}

#[test]
fn resolution_prefers_the_request_over_the_defaults() {
    let mut params = cold_request();
    params.quality = Some(90);
    params.format = None;
    let defaults = default_buckets_screenshot_task_params().unwrap();
    let task = resolve_screenshot_task(&params, &defaults, "b", "f");
    assert_eq!(task.quality, 90);
    assert_eq!(task.format, ImageFormat::Jpeg);
    assert_eq!(task.width, 800);
    assert_eq!(task.bucket, "b");
    assert_eq!(task.filename, "f");
}

#[test]
fn invalid_url_yields_no_plan() {
    let mut params = cold_request();
    params.url = "no scheme".to_string();
    let defaults = default_buckets_screenshot_task_params().unwrap();
    assert!(matches!(
        screenshot_plan(&params, &defaults, "default", false, None, 0),
        RenderPlan::InvalidUrl
    ));
}
