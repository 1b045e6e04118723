use dataflow_rs::error::DataflowError;
use dataflow_rs::http_function::{
    http_request_body, http_request_headers, http_request_method, http_request_url, http_response_apply,
    http_response_temp_data, method_sends_body,
};
use dataflow_rs::json::{Json, Number};
use dataflow_rs::message::Message;
use dataflow_rs::reading::parse_json_text;

fn j(text: &str) -> Json {
    parse_json_text(text).unwrap()
}

#[test]
fn a_request_needs_a_string_url() {
    assert_eq!(http_request_url(&j(r#"{"url": "http://x/y"}"#)).unwrap(), "http://x/y");
    for input in [r#"{}"#, r#"{"url": 3}"#] {
        match http_request_url(&j(input)) {
            Err(DataflowError::Validation(m)) => assert_eq!(m, "URL is required"),
            other => panic!("expected a validation error, got {other:?}"),
        }
    }
}

#[test]
fn the_method_defaults_to_get_and_get_and_head_send_no_body() {
    assert_eq!(http_request_method(&j("{}")), "GET");
    assert_eq!(http_request_method(&j(r#"{"method": "POST"}"#)), "POST");
    assert!(!method_sends_body("GET"));
    assert!(!method_sends_body("HEAD"));
    assert!(method_sends_body("PUT"));
    let input = j(r#"{"body": {"a": 1}}"#);
    assert_eq!(http_request_body(&input, "GET"), None);
    assert_eq!(http_request_body(&input, "POST"), Some(j(r#"{"a": 1}"#)));
}

#[test]
fn only_string_headers_are_sent() {
    let hs = http_request_headers(&j(r#"{"headers": {"a": "1", "b": 2, "c": "3"}}"#));
    assert_eq!(hs, vec![("a".to_string(), "1".to_string()), ("c".to_string(), "3".to_string())]);
    assert!(http_request_headers(&j("{}")).is_empty());
}

#[test]
fn a_response_is_recorded_with_its_body_read_as_json_when_it_is_json() {
    let r = http_response_temp_data(201, r#"{"id": 7}"#);
    assert_eq!(r.get("body"), Some(&j(r#"{"id": 7}"#)));
    assert_eq!(r.get("status"), Some(&Json::Num(Number::Int(201))));
    assert_eq!(r.get("success"), Some(&Json::Bool(true)));
    let r = http_response_temp_data(404, "not found");
    assert_eq!(r.get("body"), Some(&Json::Str("not found".to_string())));
    assert_eq!(r.get("success"), Some(&Json::Bool(false)));
}

#[test]
fn a_response_replaces_temp_data() {
    let mut m = Message::builder().temp_data(j(r#"{"old": true}"#)).build();
    let (status, changes) = http_response_apply(&mut m, 200, "[1, 2]");
    assert_eq!(status, 200);
    assert_eq!(changes.len(), 1);
    assert_eq!(changes[0].path, "temp_data");
    assert_eq!(m.temp_data().get("body"), Some(&j("[1, 2]")));
    assert_eq!(m.temp_data().get("old"), None);
}
