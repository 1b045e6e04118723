use dataflow_rs::http_source::http_source_message;
use dataflow_rs::json::Json;
use dataflow_rs::reading::parse_json_text;

fn j(text: &str) -> Json {
    parse_json_text(text).unwrap()
}

fn methods(ms: &[&str]) -> Vec<String> {
    ms.iter().map(|m| m.to_string()).collect()
}

#[test]
fn another_path_is_not_found() {
    let r = http_source_message("/ingest", &methods(&["POST"]), "POST", "/other", "", b"{}", &Vec::new(), "t");
    assert_eq!(r.err(), Some(404));
}

#[test]
fn a_method_not_allowed_is_refused() {
    let r = http_source_message("/ingest", &methods(&["POST"]), "GET", "/ingest", "", b"", &Vec::new(), "t");
    assert_eq!(r.err(), Some(405));
}

#[test]
fn a_post_body_is_read_as_json() {
    let m = http_source_message("/ingest", &methods(&["POST"]), "POST", "/ingest", "", br#"{"a": [1, 2]}"#, &Vec::new(), "t")
        .unwrap();
    assert_eq!(*m.payload(), j(r#"{"a": [1, 2]}"#));
    assert_eq!(*m.data(), j("{}"));
}

#[test]
fn a_post_body_that_is_not_json_is_kept_raw() {
    let m = http_source_message("/ingest", &methods(&["POST"]), "POST", "/ingest", "", b"hello", &Vec::new(), "t")
        .unwrap();
    assert_eq!(*m.payload(), j(r#"{"raw": "hello"}"#));
}

#[test]
fn a_get_carries_its_query_parameters() {
    let m = http_source_message("/q", &methods(&["GET"]), "GET", "/q", "a=1&b=two", b"", &Vec::new(), "t").unwrap();
    assert_eq!(*m.payload(), j(r#"{"a": "1", "b": "two"}"#));
}

#[test]
fn the_metadata_records_the_request() {
    let headers = vec![
        ("content-type".to_string(), "text/plain".to_string()),
        ("x-id".to_string(), "1".to_string()),
        ("content-type".to_string(), "application/json".to_string()),
    ];
    let m = http_source_message("/in", &methods(&["PUT"]), "PUT", "/in", "", b"", &headers, "2024-01-01T00:00:00+00:00")
        .unwrap();
    assert_eq!(*m.payload(), j("{}"));
    let meta = m.metadata();
    assert_eq!(meta.get("source"), Some(&j(r#""http""#)));
    assert_eq!(meta.get("method"), Some(&j(r#""PUT""#)));
    assert_eq!(meta.get("path"), Some(&j(r#""/in""#)));
    assert_eq!(meta.get("timestamp"), Some(&j(r#""2024-01-01T00:00:00+00:00""#)));
    assert_eq!(
        meta.get("headers"),
        Some(&Json::Object(vec![
            ("content-type".to_string(), Json::Str("application/json".to_string())),
            ("x-id".to_string(), Json::Str("1".to_string())),
        ]))
    );
}
