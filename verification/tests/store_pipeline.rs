use reqwest_wrap_log::errors::TrackError;
use reqwest_wrap_log::model::{RequestData, ResponseData};
use reqwest_wrap_log::pipeline::{
    build_request_snapshot, build_response_snapshot, collapse_last_wins, fail_send,
    make_logged_text, policy_reads_body, policy_returns_live_response,
    policy_safe_for_non_idempotent, response_headers_with_urls, BodyPolicy,
};
use reqwest_wrap_log::store::CaptureStore;

fn sample_request(endpoint: &str) -> RequestData {
    RequestData {
        method: "GET".to_string(),
        endpoint: endpoint.to_string(),
        headers: vec![("accept".to_string(), "*/*".to_string())],
        body: None,
        cookies: vec![],
        request_time: "2024-01-01T00:00:00+03:00".to_string(),
    }
}

fn sample_response(status: u16, body: &str) -> ResponseData {
    ResponseData {
        status,
        headers: vec![("content-type".to_string(), "text/plain".to_string())],
        body: body.to_string(),
        set_cookies: vec![],
        response_time: "2024-01-01T00:00:01+03:00".to_string(),
        duration_ms: 12,
    }
}

#[test]
fn insert_then_read_back() {
    let mut s = CaptureStore::new();
    s.insert("a".to_string(), sample_request("https://example.test/x"));
    assert_eq!(s.len(), 1);
    let e = s.get("a").unwrap();
    assert_eq!(e.request_data.method, "GET");
    assert_eq!(e.request_data.endpoint, "https://example.test/x");
    assert!(e.response_data.is_none());
    assert!(e.error.is_none());
    assert!(e.cookies.is_none());
    assert!(s.get("missing").is_none());
}

#[test]
fn second_insert_overwrites() {
    let mut s = CaptureStore::new();
    s.insert("k".to_string(), sample_request("https://one.test/"));
    s.insert("k".to_string(), sample_request("https://two.test/"));
    assert_eq!(s.len(), 1);
    let e = s.get("k").unwrap();
    assert_eq!(e.request_data.endpoint, "https://two.test/");
}

#[test]
fn successful_send_read_through() {
    // A GET to https://example.test/x under key "a"; the transport answers
    // 200 with body "ok"; the read-through variant stores the body.
    let mut s = CaptureStore::new();
    s.insert("a".to_string(), sample_request("https://example.test/x"));
    s.record_success("a", sample_response(200, "ok"), None);
    let e = s.get("a").unwrap();
    let resp = e.response_data.as_ref().unwrap();
    assert_eq!(resp.status, 200);
    assert_eq!(resp.body, "ok");
    assert_eq!(
        resp.headers,
        vec![("content-type".to_string(), "text/plain".to_string())]
    );
    assert!(e.error.is_none());
}

#[test]
fn successful_send_fire_and_forget() {
    // The same exchange under the fire-and-forget variant: the pipeline
    // never reads the body, so the snapshot stores it empty.
    let mut s = CaptureStore::new();
    s.insert("a".to_string(), sample_request("https://example.test/x"));
    s.record_success("a", sample_response(200, ""), None);
    let e = s.get("a").unwrap();
    assert_eq!(e.response_data.as_ref().unwrap().status, 200);
    assert_eq!(e.response_data.as_ref().unwrap().body, "");
    assert!(e.error.is_none());
}

#[test]
fn failed_send_records_error_only() {
    // The transport raises a connection error for key "b": the entry ends
    // with a non-empty error and no response snapshot.
    let mut s = CaptureStore::new();
    s.insert("b".to_string(), sample_request("https://example.test/y"));
    let err = fail_send(&mut s, "b", "connection refused".to_string());
    match err {
        TrackError::RequestFailed(m) => assert_eq!(m, "connection refused"),
        other => panic!("wrong variant: {:?}", other),
    }
    let e = s.get("b").unwrap();
    assert!(e.response_data.is_none());
    let msg = e.error.as_ref().unwrap();
    assert!(!msg.is_empty());
    assert_eq!(msg, "connection refused");
}

#[test]
fn redispatch_under_same_key_resets_entry() {
    let mut s = CaptureStore::new();
    s.insert("k".to_string(), sample_request("https://example.test/1"));
    s.record_success("k", sample_response(200, "ok"), Some("[]".to_string()));
    s.insert("k".to_string(), sample_request("https://example.test/2"));
    let e = s.get("k").unwrap();
    assert_eq!(e.request_data.endpoint, "https://example.test/2");
    assert!(e.response_data.is_none());
    assert!(e.error.is_none());
    assert!(e.cookies.is_none());
}

#[test]
fn error_after_success_keeps_response() {
    let mut s = CaptureStore::new();
    s.insert("k".to_string(), sample_request("https://example.test/"));
    s.record_success("k", sample_response(200, "ok"), None);
    s.record_error("k", "late failure".to_string());
    let e = s.get("k").unwrap();
    assert_eq!(e.response_data.as_ref().unwrap().status, 200);
    assert_eq!(e.error.as_deref(), Some("late failure"));
}

#[test]
fn record_under_missing_key_is_noop() {
    let mut s = CaptureStore::new();
    s.insert("here".to_string(), sample_request("https://example.test/"));
    s.record_success("gone", sample_response(200, "x"), None);
    s.record_error("gone", "e".to_string());
    assert_eq!(s.len(), 1);
    assert!(s.get("gone").is_none());
}

#[test]
fn drain_is_isolated_from_later_insert() {
    // An insert that starts strictly after a drain has returned shows up in
    // a later snapshot and never in the drained batch.
    let mut s = CaptureStore::new();
    s.insert("before".to_string(), sample_request("https://example.test/1"));
    let drained = s.drain_all();
    assert_eq!(s.len(), 0);
    s.insert("after".to_string(), sample_request("https://example.test/2"));
    let snap = s.snapshot_all();
    assert!(snap.get("after").is_some());
    assert!(snap.get("before").is_none());
    assert!(drained.get("before").is_some());
    assert!(drained.get("after").is_none());
}

#[test]
fn clear_removes_everything() {
    let mut s = CaptureStore::new();
    s.insert("x".to_string(), sample_request("https://example.test/"));
    s.insert("y".to_string(), sample_request("https://example.test/"));
    assert_eq!(s.len(), 2);
    s.clear();
    assert_eq!(s.len(), 0);
    assert!(s.get("x").is_none());
}

#[test]
fn snapshot_does_not_mutate() {
    let mut s = CaptureStore::new();
    s.insert("x".to_string(), sample_request("https://example.test/"));
    let snap = s.snapshot_all();
    assert_eq!(snap.len(), 1);
    assert_eq!(s.len(), 1);
    assert!(s.get("x").is_some());
}

#[test]
fn duration_is_kept_and_non_negative() {
    let resp = build_response_snapshot(
        204,
        vec![],
        String::new(),
        vec![],
        0,
    );
    assert_eq!(resp.duration_ms, 0);
    let resp2 = build_response_snapshot(200, vec![], "b".to_string(), vec![], 12345);
    assert_eq!(resp2.duration_ms, 12345);
}

#[test]
fn request_snapshot_collapses_headers_last_wins() {
    let req = build_request_snapshot(
        "POST".to_string(),
        "https://example.test/z".to_string(),
        vec![
            ("h".to_string(), "first".to_string()),
            ("other".to_string(), "kept".to_string()),
            ("h".to_string(), "second".to_string()),
        ],
        Some("payload".to_string()),
        vec![],
    );
    assert_eq!(req.method, "POST");
    assert_eq!(req.body.as_deref(), Some("payload"));
    assert_eq!(req.headers.len(), 2);
    let h = req.headers.iter().find(|p| p.0 == "h").unwrap();
    assert_eq!(h.1, "second");
    let other = req.headers.iter().find(|p| p.0 == "other").unwrap();
    assert_eq!(other.1, "kept");
}

#[test]
fn request_snapshot_stamps_fixed_offset_time() {
    let req = build_request_snapshot(
        "GET".to_string(),
        "https://example.test/".to_string(),
        vec![],
        None,
        vec![],
    );
    assert!(!req.request_time.is_empty());
    assert!(req.request_time.ends_with("+03:00"));
    let resp = build_response_snapshot(200, vec![], String::new(), vec![], 1);
    assert!(resp.response_time.ends_with("+03:00"));
}

#[test]
fn collapse_keeps_singletons() {
    let out = collapse_last_wins(vec![
        ("a".to_string(), "1".to_string()),
        ("b".to_string(), "2".to_string()),
    ]);
    assert_eq!(
        out,
        vec![
            ("a".to_string(), "1".to_string()),
            ("b".to_string(), "2".to_string())
        ]
    );
}

#[test]
fn logged_text_redirect_flag() {
    let orig = "https://example.test/start".to_string();
    let lt = make_logged_text(
        302,
        vec![],
        "moved".to_string(),
        "https://example.test/final".to_string(),
        &orig,
    );
    assert!(lt.redirected);
    assert_eq!(lt.status, 302);
    let lt2 = make_logged_text(200, vec![], "ok".to_string(), orig.clone(), &orig);
    assert!(!lt2.redirected);
    assert_eq!(lt2.final_url, "https://example.test/start");
}

#[test]
fn url_recording_headers_appended() {
    let headers = vec![("content-type".to_string(), "text/html".to_string())];
    let fin = "https://b/".to_string();
    let orig = "https://a/".to_string();
    let out = response_headers_with_urls(headers, &fin, &orig);
    assert_eq!(out.len(), 3);
    assert_eq!(out[1], ("x-final-url".to_string(), "https://b/".to_string()));
    assert_eq!(out[2], ("x-orig-url".to_string(), "https://a/".to_string()));
}

#[test]
fn body_policies() {
    assert!(!policy_reads_body(BodyPolicy::DoNotRead));
    assert!(policy_reads_body(BodyPolicy::ReadAndReturnText));
    assert!(policy_reads_body(BodyPolicy::ReadThenReplay));
    assert!(policy_returns_live_response(BodyPolicy::DoNotRead));
    assert!(!policy_returns_live_response(BodyPolicy::ReadAndReturnText));
    assert!(policy_returns_live_response(BodyPolicy::ReadThenReplay));
    assert!(policy_safe_for_non_idempotent(BodyPolicy::DoNotRead));
    assert!(policy_safe_for_non_idempotent(BodyPolicy::ReadAndReturnText));
    assert!(!policy_safe_for_non_idempotent(BodyPolicy::ReadThenReplay));
}
