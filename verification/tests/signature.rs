use webshot::access_control::{AccessDecision, LfsAccessControlMiddleware};
use webshot::signature_v4::{PresignErrorKind, PresignedUrl};

fn parts(url: &str) -> (String, String) {
    let mut it = url.splitn(2, '?');
    let path = it.next().unwrap().to_string();
    let query = it.next().unwrap_or("").to_string();
    (path, query)
}

#[test]
fn sign_round_trip_within_window() {
    let p = PresignedUrl::new("static/ab/cd.png", "SECRET-REDACTED", 1_700_000_000);
    let (path, query) = parts(&p.to_url());
    assert_eq!(path, "static/ab/cd.png");
    let got = PresignedUrl::verify_query(&path, &query, 1_700_000_000).unwrap();
    assert_eq!(got, "SECRET-REDACTED");
    let got = PresignedUrl::verify_query(&path, &query, 1_700_000_000 + 3600).unwrap();
    assert_eq!(got, "SECRET-REDACTED");
}

#[test]
fn sign_round_trip_with_reserved_characters() {
    let token = "a b+c&=%~\u{00e9}";
    let p = PresignedUrl::new("static/x x/y.pdf", token, 42);
    let (path, query) = parts(&p.to_url());
    let got = PresignedUrl::verify_query(&path, &query, 100).unwrap();
    assert_eq!(got, token);
}

#[test]
fn verify_expired_after_window() {
    let p = PresignedUrl::new("static/a/b.png", "tok", 1_000_000);
    let (path, query) = parts(&p.to_url());
    let err = PresignedUrl::verify_query(&path, &query, 1_000_000 + 3601).unwrap_err();
    assert_eq!(err.kind, PresignErrorKind::Expired);
}

#[test]
fn verify_not_yet_valid_before_issue() {
    let p = PresignedUrl::new("static/a/b.png", "tok", 1_000_000);
    let (path, query) = parts(&p.to_url());
    let err = PresignedUrl::verify_query(&path, &query, 999_999).unwrap_err();
    assert_eq!(err.kind, PresignErrorKind::NotYetValid);
}

#[test]
fn verify_rejects_changed_path() {
    let p = PresignedUrl::new("static/a/b.png", "tok", 5);
    let (_, query) = parts(&p.to_url());
    let err = PresignedUrl::verify_query("static/a/c.png", &query, 5).unwrap_err();
    assert_eq!(err.kind, PresignErrorKind::BadSignature);
}

#[test]
fn verify_rejects_tampered_signature() {
    let p = PresignedUrl::new("static/a/b.png", "tok", 5);
    let (path, query) = parts(&p.to_url());
    let tampered = if query.ends_with('0') {
        format!("{}1", &query[..query.len() - 1])
    } else {
        format!("{}0", &query[..query.len() - 1])
    };
    let err = PresignedUrl::verify_query(&path, &tampered, 5).unwrap_err();
    assert_eq!(err.kind, PresignErrorKind::BadSignature);
}

#[test]
fn verify_rejects_missing_query() {
    let err = PresignedUrl::verify_query("static/a/b.png", "", 5).unwrap_err();
    assert_eq!(err.kind, PresignErrorKind::MalformedQuery);
}

#[test]
fn verify_rejects_unknown_parameter() {
    let p = PresignedUrl::new("static/a/b.png", "tok", 5);
    let (path, query) = parts(&p.to_url());
    let err =
        PresignedUrl::verify_query(&path, &format!("{query}&extra=1"), 5).unwrap_err();
    assert_eq!(err.kind, PresignErrorKind::MalformedQuery);
}

#[test]
fn verify_rejects_repeated_parameter() {
    let p = PresignedUrl::new("static/a/b.png", "tok", 5);
    let (path, query) = parts(&p.to_url());
    let err = PresignedUrl::verify_query(&path, &format!("{query}&X-Amz-Date=5"), 5)
        .unwrap_err();
    assert_eq!(err.kind, PresignErrorKind::MalformedQuery);
}

#[test]
fn canonical_json_matches_reference_serializer() {
    // The signature digests the canonical JSON of the five fields; the
    // reference serializer over the same fields must agree on it.
    let p = PresignedUrl::new("static/q/r.png", "to\"k\\en", 77);
    let mut m = serde_json::Map::new();
    m.insert(
        "path".to_string(),
        serde_json::Value::String("static/q/r.png".to_string()),
    );
    m.insert(
        "x_amz_algorithm".to_string(),
        serde_json::Value::String("AWS4-HMAC-SHA256".to_string()),
    );
    m.insert(
        "x_amz_credential".to_string(),
        serde_json::Value::String("to\"k\\en".to_string()),
    );
    m.insert("x_amz_date".to_string(), serde_json::Value::from(77u64));
    m.insert("x_amz_expires".to_string(), serde_json::Value::from(3600u64));
    let json = serde_json::to_string(&serde_json::Value::Object(m)).unwrap();
    let mut h = <sha1::Sha1 as sha1::Digest>::new();
    sha1::Digest::update(&mut h, json.as_bytes());
    let expected = format!("{:x}", sha1::Digest::finalize(h));
    assert_eq!(p.sign(), expected);
}

#[test]
fn static_route_gate_admits_only_valid_signatures() {
    let gate = LfsAccessControlMiddleware { access_tokens: vec!["tok".to_string()] };
    // No query at all: refused.
    assert_eq!(gate.handle("static/a/b.png", "", 50_000), AccessDecision::Unauthorized);
    // A freshly signed URL: admitted.
    let p = PresignedUrl::new("static/a/b.png", "tok", 50_000);
    let (path, query) = parts(&p.to_url());
    assert_eq!(gate.handle(&path, &query, 50_000), AccessDecision::Forward);
    // Issued 10000 seconds ago, window 3600: refused.
    assert_eq!(gate.handle(&path, &query, 60_000), AccessDecision::Unauthorized);
}

#[test]
fn sha1_hex_matches_reference_digest() {
    let data = b"abc";
    let mut h = <sha1::Sha1 as sha1::Digest>::new();
    sha1::Digest::update(&mut h, data.as_slice());
    let expected = format!("{:x}", sha1::Digest::finalize(h));
    assert_eq!(webshot::hash::sha1_hex(data.as_slice()), expected);
    assert_eq!(
        webshot::hash::sha1_hex(b"abc".as_slice()),
        "a9993e364706816aba3e25717850c26c9cd0d89d"
    );
}
