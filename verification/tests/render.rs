use reqwest_wrap_log::model::{RequestData, ResponseData};
use reqwest_wrap_log::store::CaptureStore;
use reqwest_wrap_log::text::truncate;

fn request_fixed() -> RequestData {
    RequestData {
        method: "GET".to_string(),
        endpoint: "https://example.test/x".to_string(),
        headers: vec![("content-type".to_string(), "text/plain".to_string())],
        body: None,
        cookies: vec![],
        request_time: "T1".to_string(),
    }
}

#[test]
fn truncate_limits_to_fifty() {
    // An 80-character value keeps 47 characters plus the 3-character marker.
    let long = "x".repeat(80);
    let t = truncate(&long, 50);
    assert_eq!(t.chars().count(), 50);
    assert_eq!(t, format!("{}...", "x".repeat(47)));
    // A 40-character value passes through unchanged.
    let short = "y".repeat(40);
    assert_eq!(truncate(&short, 50), short);
    // Exactly at the limit: unchanged.
    let exact = "z".repeat(50);
    assert_eq!(truncate(&exact, 50), exact);
    // One over the limit: cut.
    let over = "w".repeat(51);
    assert_eq!(truncate(&over, 50), format!("{}...", "w".repeat(47)));
}

#[test]
fn empty_store_renders_empty_object() {
    let s = CaptureStore::new();
    assert_eq!(s.to_json(), "{}");
    assert_eq!(s.to_redacted_json(), "{}");
}

#[test]
fn one_entry_exact_json() {
    let mut s = CaptureStore::new();
    s.insert("k".to_string(), request_fixed());
    let expected = "{\"k\":{\"request_data\":{\"method\":\"GET\",\
\"endpoint\":\"https://example.test/x\",\
\"headers\":{\"content-type\":\"text/plain\"},\
\"body\":null,\"cookies\":{},\"request_time\":\"T1\"},\
\"response_data\":null,\"error\":null,\"cookies\":null}}";
    assert_eq!(s.to_json(), expected);
}

#[test]
fn full_entry_exact_json() {
    let mut s = CaptureStore::new();
    s.insert(
        "k".to_string(),
        RequestData {
            method: "POST".to_string(),
            endpoint: "https://example.test/submit".to_string(),
            headers: vec![],
            body: Some("a\"b\\c\nd\u{1}".to_string()),
            cookies: vec![("sid".to_string(), "42".to_string())],
            request_time: "T1".to_string(),
        },
    );
    s.record_success(
        "k",
        ResponseData {
            status: 201,
            headers: vec![("server".to_string(), "t\te".to_string())],
            body: "done".to_string(),
            set_cookies: vec!["a=1; Path=/".to_string(), "b=2".to_string()],
            response_time: "T2".to_string(),
            duration_ms: 1234,
        },
        Some("[]".to_string()),
    );
    let expected = "{\"k\":{\"request_data\":{\"method\":\"POST\",\
\"endpoint\":\"https://example.test/submit\",\
\"headers\":{},\
\"body\":\"a\\\"b\\\\c\\nd\\u0001\",\
\"cookies\":{\"sid\":\"42\"},\"request_time\":\"T1\"},\
\"response_data\":{\"status\":201,\"headers\":{\"server\":\"t\\te\"},\
\"body\":\"done\",\"set_cookies\":[\"a=1; Path=/\",\"b=2\"],\
\"response_time\":\"T2\",\"duration_ms\":1234},\
\"error\":null,\"cookies\":\"[]\"}}";
    assert_eq!(s.to_json(), expected);
}

#[test]
fn take_json_serializes_then_clears() {
    let mut s = CaptureStore::new();
    s.insert("k".to_string(), request_fixed());
    let j = s.take_json();
    assert!(j.contains("\"k\""));
    assert_eq!(s.len(), 0);
    assert_eq!(s.to_json(), "{}");
}

#[test]
fn redaction_truncates_and_leaves_store_untouched() {
    let long_header = "h".repeat(80);
    let long_cookie_line = "c".repeat(60);
    let long_dump = "d".repeat(600);
    let mut s = CaptureStore::new();
    s.insert(
        "k".to_string(),
        RequestData {
            method: "GET".to_string(),
            endpoint: "https://example.test/".to_string(),
            headers: vec![("big".to_string(), long_header.clone())],
            body: None,
            cookies: vec![],
            request_time: "T1".to_string(),
        },
    );
    s.record_success(
        "k",
        ResponseData {
            status: 200,
            headers: vec![("big".to_string(), long_header.clone())],
            body: "ok".to_string(),
            set_cookies: vec![long_cookie_line.clone()],
            response_time: "T2".to_string(),
            duration_ms: 5,
        },
        Some(long_dump.clone()),
    );

    let r1 = s.to_redacted_json();
    let r2 = s.to_redacted_json();
    // Rendering twice on the same state yields identical output.
    assert_eq!(r1, r2);

    let truncated_header = format!("{}...", "h".repeat(47));
    let truncated_cookie = format!("{}...", "c".repeat(47));
    let truncated_dump = format!("{}...", "d".repeat(497));
    assert!(r1.contains(&truncated_header));
    assert!(r1.contains(&truncated_cookie));
    assert!(r1.contains(&truncated_dump));
    assert!(!r1.contains(&long_header));
    assert!(!r1.contains(&long_dump));

    // The stored snapshot still holds the un-truncated values.
    let snap = s.snapshot_all();
    let e = snap.get("k").unwrap();
    assert_eq!(e.request_data.headers[0].1, long_header);
    let resp = e.response_data.as_ref().unwrap();
    assert_eq!(resp.headers[0].1, long_header);
    assert_eq!(resp.set_cookies[0], long_cookie_line);
    assert_eq!(e.cookies.as_deref(), Some(long_dump.as_str()));
    let full = s.to_json();
    assert!(full.contains(&long_header));
    assert!(full.contains(&long_dump));
}

#[test]
fn redaction_keeps_short_values_and_bodies() {
    let body = "b".repeat(300);
    let mut s = CaptureStore::new();
    s.insert(
        "k".to_string(),
        RequestData {
            method: "GET".to_string(),
            endpoint: "https://example.test/".to_string(),
            headers: vec![("small".to_string(), "v".repeat(40))],
            body: None,
            cookies: vec![],
            request_time: "T1".to_string(),
        },
    );
    s.record_success(
        "k",
        ResponseData {
            status: 200,
            headers: vec![],
            body: body.clone(),
            set_cookies: vec![],
            response_time: "T2".to_string(),
            duration_ms: 5,
        },
        None,
    );
    let r = s.to_redacted_json();
    // Short header values pass through unchanged; bodies are never cut.
    assert!(r.contains(&"v".repeat(40)));
    assert!(r.contains(&body));
}
