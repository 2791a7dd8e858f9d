use reqwest_cookie_store::CookieStoreMutex;
use reqwest_wrap_log::errors::TrackError;
use reqwest_wrap_log::jar::{cookies_for_url, dump_cookies, import_jar, ndjson_to_array};

fn jar_with_cookies() -> CookieStoreMutex {
    let url = url::Url::parse("https://example.test/").unwrap();
    let mut cs = cookie_store::CookieStore::new();
    cs.parse("session=abc; Path=/; Max-Age=3600", &url).unwrap();
    cs.parse("flash=tmp; Path=/", &url).unwrap();
    CookieStoreMutex::new(cs)
}

#[test]
fn ndjson_reshaped_into_compact_array() {
    let raw = "{ \"a\" : 1 }\n\n{\"b\":[1, 2]}\n";
    let arr = ndjson_to_array(raw).unwrap();
    assert_eq!(arr, "[{\"a\":1},{\"b\":[1,2]}]");
}

#[test]
fn ndjson_empty_input_gives_empty_array() {
    assert_eq!(ndjson_to_array("").unwrap(), "[]");
    assert_eq!(ndjson_to_array(" \t\r\n\n").unwrap(), "[]");
}

#[test]
fn ndjson_malformed_line_is_serialization_error() {
    let err = ndjson_to_array("{\"ok\":1}\nnot json\n").unwrap_err();
    match err {
        TrackError::SerializationError(m) => assert!(!m.is_empty()),
        other => panic!("wrong variant: {:?}", other),
    }
}

#[test]
fn dump_is_a_json_array_with_the_cookies() {
    let jar = jar_with_cookies();
    let dump = dump_cookies(&jar).unwrap();
    assert!(dump.starts_with('['));
    assert!(dump.ends_with(']'));
    let v: serde_json::Value = serde_json::from_str(&dump).unwrap();
    let items = v.as_array().unwrap();
    assert_eq!(items.len(), 2);
    assert!(dump.contains("session"));
    // The session cookie is non-persistent and still exported.
    assert!(dump.contains("flash"));
}

#[test]
fn export_import_reexport_is_set_equal() {
    // Exporting, importing into a fresh jar, and re-exporting yields a
    // set-equal collection of cookie records.
    let jar = jar_with_cookies();
    let first = dump_cookies(&jar).unwrap();
    let jar2 = import_jar(&first).unwrap();
    let second = dump_cookies(&jar2).unwrap();

    let records = |s: &str| -> Vec<String> {
        let v: serde_json::Value = serde_json::from_str(s).unwrap();
        let mut out: Vec<String> = v
            .as_array()
            .unwrap()
            .iter()
            .map(|it| serde_json::to_string(it).unwrap())
            .collect();
        out.sort();
        out
    };
    assert_eq!(records(&first), records(&second));
    assert_eq!(records(&first).len(), 2);
}

#[test]
fn import_accepts_newline_delimited_snapshots() {
    let jar = jar_with_cookies();
    let array_form = dump_cookies(&jar).unwrap();
    let v: serde_json::Value = serde_json::from_str(&array_form).unwrap();
    let nd: Vec<String> = v
        .as_array()
        .unwrap()
        .iter()
        .map(|it| serde_json::to_string(it).unwrap())
        .collect();
    let nd_form = nd.join("\n");
    let jar2 = import_jar(&nd_form).unwrap();
    let reexport = dump_cookies(&jar2).unwrap();
    assert!(reexport.contains("session"));
    assert!(reexport.contains("flash"));
}

#[test]
fn import_rejects_garbage_with_parse_error() {
    let err = import_jar("this is not json").unwrap_err();
    match err {
        TrackError::ParseError(m) => assert!(!m.is_empty()),
        other => panic!("wrong variant: {:?}", other),
    }
    let err2 = import_jar("[{\"bad\":1}]").unwrap_err();
    assert!(matches!(err2, TrackError::ParseError(_)));
}

#[test]
fn cookies_for_url_returns_applicable_pairs() {
    let jar = jar_with_cookies();
    let url = url::Url::parse("https://example.test/page").unwrap();
    let mut pairs = cookies_for_url(&jar, &url).unwrap();
    pairs.sort();
    assert_eq!(
        pairs,
        vec![
            ("flash".to_string(), "tmp".to_string()),
            ("session".to_string(), "abc".to_string())
        ]
    );
    let other = url::Url::parse("https://elsewhere.test/").unwrap();
    assert!(cookies_for_url(&jar, &other).unwrap().is_empty());
}
