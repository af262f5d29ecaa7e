use std::hash::Hasher;

use webshot::hash::{calculate_hash, calculate_hash_str, is_sha256_checksum};
use webshot::pdf::PDFRequestQSParams;
use webshot::screenshot::{parse_screenshot_query, ImageFormat, ScreenshotRequestQSParams};

fn sample() -> ScreenshotRequestQSParams {
    ScreenshotRequestQSParams {
        url: "https://example.com/".to_string(),
        format: Some(ImageFormat::Png),
        quality: Some(80),
        width: Some(800),
        height: Some(600),
        scale: Some(10),
        ttl: Some(60),
        full_page: Some(false),
        omit_background: None,
    }
}

fn is_lower_hex(s: &str) -> bool {
    !s.is_empty() && s.bytes().all(|b| b.is_ascii_digit() || (b'a'..=b'f').contains(&b))
}

#[test]
fn equal_requests_share_their_key() {
    let a = sample();
    let b = sample();
    assert_eq!(a.filename().unwrap(), b.filename().unwrap());
    assert_eq!(a.path().unwrap(), b.path().unwrap());
}

#[test]
fn every_rendering_field_changes_the_fingerprint() {
    let base = sample();
    let fp = base.fingerprint_bytes();
    let mut m = sample();
    m.url = "https://example.org/".to_string();
    assert_ne!(m.fingerprint_bytes(), fp);
    let mut m = sample();
    m.format = Some(ImageFormat::Jpeg);
    assert_ne!(m.fingerprint_bytes(), fp);
    let mut m = sample();
    m.quality = Some(81);
    assert_ne!(m.fingerprint_bytes(), fp);
    let mut m = sample();
    m.width = None;
    assert_ne!(m.fingerprint_bytes(), fp);
    let mut m = sample();
    m.height = Some(601);
    assert_ne!(m.fingerprint_bytes(), fp);
    let mut m = sample();
    m.scale = Some(5);
    assert_ne!(m.fingerprint_bytes(), fp);
    let mut m = sample();
    m.full_page = Some(true);
    assert_ne!(m.fingerprint_bytes(), fp);
    let mut m = sample();
    m.omit_background = Some(false);
    assert_ne!(m.fingerprint_bytes(), fp);
}

#[test]
fn ttl_never_changes_the_key() {
    let a = sample();
    let mut b = sample();
    b.ttl = Some(3600);
    assert_eq!(a.fingerprint_bytes(), b.fingerprint_bytes());
    assert_eq!(a.filename().unwrap(), b.filename().unwrap());
    let mut c = sample();
    c.ttl = None;
    assert_eq!(a.filename().unwrap(), c.filename().unwrap());
}

#[test]
fn same_origin_shares_the_key_prefix() {
    let mut a = sample();
    a.url = "https://example.com/a".to_string();
    let mut b = sample();
    b.url = "https://example.com/b".to_string();
    let fa = a.filename().unwrap();
    let fb = b.filename().unwrap();
    let (pa, sa) = fa.split_once('/').unwrap();
    let (pb, sb) = fb.split_once('/').unwrap();
    assert_eq!(pa, pb);
    assert_ne!(sa, sb);
}

#[test]
fn key_is_two_hex_hashes_and_extension() {
    let p = sample().path().unwrap();
    let (head, ext) = p.rsplit_once('.').unwrap();
    assert_eq!(ext, "png");
    let (origin_hash, request_hash) = head.split_once('/').unwrap();
    assert!(is_lower_hex(origin_hash));
    assert!(is_lower_hex(request_hash));
}

#[test]
fn pdf_key_carries_the_pdf_extension() {
    let p = PDFRequestQSParams {
        url: "https://example.com/doc".to_string(),
        scale: Some(10),
        ttl: Some(300),
        omit_background: None,
    };
    let path = p.path().unwrap();
    assert!(path.ends_with(".pdf"));
    let (head, _) = path.rsplit_once('.').unwrap();
    let (a, b) = head.split_once('/').unwrap();
    assert!(is_lower_hex(a));
    assert!(is_lower_hex(b));
}

#[test]
fn unparseable_url_has_no_key() {
    let mut a = sample();
    a.url = "not a url".to_string();
    assert!(a.filename().is_none());
    assert!(a.path().is_none());
}

#[test]
fn extension_follows_the_requested_format() {
    let mut a = sample();
    a.format = Some(ImageFormat::Jpeg);
    assert!(a.path().unwrap().ends_with(".jpg"));
    a.format = Some(ImageFormat::Webp);
    assert!(a.path().unwrap().ends_with(".webp"));
    a.format = None;
    assert!(a.path().unwrap().ends_with(".jpg"));
}

#[test]
fn hash_matches_the_default_hasher() {
    let data = b"stable fingerprint input";
    let mut h = std::collections::hash_map::DefaultHasher::new();
    h.write(data.as_slice());
    let expected = h.finish();
    assert_eq!(calculate_hash(data.as_slice()), expected);
    assert_eq!(calculate_hash_str(data.as_slice()), format!("{:x}", expected));
}

#[test]
fn sha256_checksum_shape_is_checked() {
    let ok = "a".repeat(64);
    assert!(is_sha256_checksum(&ok));
    assert!(!is_sha256_checksum(&"a".repeat(63)));
    assert!(!is_sha256_checksum(&"A".repeat(64)));
    assert!(!is_sha256_checksum(&"g".repeat(64)));
    assert!(!is_sha256_checksum(""));
}

#[test]
fn screenshot_query_parses_the_cold_request() {
    let q = "url=https://example.com/&format=png&width=800&height=600&scale=10&ttl=60";
    let p = parse_screenshot_query(q).unwrap();
    assert_eq!(p.url, "https://example.com/");
    assert_eq!(p.format, Some(ImageFormat::Png));
    assert_eq!(p.width, Some(800));
    assert_eq!(p.height, Some(600));
    assert_eq!(p.scale, Some(10));
    assert_eq!(p.ttl, Some(60));
    assert_eq!(p.quality, None);
    assert_eq!(p.full_page, None);
    assert_eq!(p.omit_background, None);
}

#[test]
fn screenshot_query_rejects_bad_input() {
    // Unknown parameter.
    assert!(parse_screenshot_query("url=https://a/&color=red").is_none());
    // Repeated parameter.
    assert!(parse_screenshot_query("url=https://a/&width=1&width=2").is_none());
    // Missing url.
    assert!(parse_screenshot_query("width=800").is_none());
    // Quality out of its 1..=100 range.
    assert!(parse_screenshot_query("url=https://a/&quality=0").is_none());
    assert!(parse_screenshot_query("url=https://a/&quality=101").is_none());
    // Zero width.
    assert!(parse_screenshot_query("url=https://a/&width=0").is_none());
    // Malformed escape.
    assert!(parse_screenshot_query("url=https%ZZ").is_none());
    // Unknown format.
    assert!(parse_screenshot_query("url=https://a/&format=gif").is_none());
    // A boolean that is not written out.
    assert!(parse_screenshot_query("url=https://a/&full_page=1").is_none());
}

#[test]
fn screenshot_query_decodes_escapes() {
    let q = "url=https%3A%2F%2Fexample.com%2Fa+b&full_page=true";
    let p = parse_screenshot_query(q).unwrap();
    assert_eq!(p.url, "https://example.com/a b");
    assert_eq!(p.full_page, Some(true));
}

#[test]
fn pdf_query_parses_and_rejects() {
    let p = webshot::pdf::parse_pdf_query("url=https://example.com/&scale=10&ttl=300").unwrap();
    assert_eq!(p.url, "https://example.com/");
    assert_eq!(p.scale, Some(10));
    assert_eq!(p.ttl, Some(300));
    assert_eq!(p.omit_background, None);
    assert!(webshot::pdf::parse_pdf_query("url=https://a/&width=3").is_none());
    assert!(webshot::pdf::parse_pdf_query("url=https://a/&scale=0").is_none());
}
