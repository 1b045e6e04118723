use dataflow_rs::error::DataflowError;
use dataflow_rs::json::{Json, Number};
use dataflow_rs::message::Message;
use dataflow_rs::parse::parsed_source_value;
use dataflow_rs::reading::{parse_json_text, xml_to_json};

fn to_json(v: &serde_json::Value) -> Json {
    match v {
        serde_json::Value::Null => Json::Null,
        serde_json::Value::Bool(b) => Json::Bool(*b),
        serde_json::Value::Number(n) => {
            if let Some(i) = n.as_i64() {
                Json::Num(Number::Int(i))
            } else if let Some(u) = n.as_u64() {
                Json::Num(Number::UInt(u))
            } else {
                Json::Num(Number::Float(n.to_string()))
            }
        }
        serde_json::Value::String(s) => Json::Str(s.clone()),
        serde_json::Value::Array(a) => Json::Array(a.iter().map(to_json).collect()),
        serde_json::Value::Object(m) => {
            Json::Object(m.iter().map(|(k, v)| (k.clone(), to_json(v))).collect())
        }
    }
}

fn j(text: &str) -> Json {
    to_json(&serde_json::from_str(text).unwrap())
}



#[test]
fn from_json_str_parses_valid_payload() {
    let msg = Message::from_json_str(r#"{"order": {"total": 42}}"#).expect("valid JSON should parse");
    assert_eq!(*msg.payload(), j(r#"{"order": {"total": 42}}"#));
}

#[test]
fn from_json_str_rejects_malformed_payload() {
    let err = Message::from_json_str("{ not json").expect_err("malformed input should fail");
    assert!(matches!(err, DataflowError::Deserialization(_)));
}

#[test]
fn json_text_reads_into_the_same_value_serde_json_reads() {
    for text in [r#"{"b": [1, -2, 3.5, true, null], "a": "x"}"#, "18446744073709551615", r#""\u00e9""#, "[]"] {
        assert_eq!(parse_json_text(text), Some(j(text)), "{text}");
    }
    assert_eq!(parse_json_text("{ not json"), None);
}

#[test]
fn test_xml_to_json_simple() {
    let result = xml_to_json("<root><name>Test</name></root>");
    assert!(result.is_ok());
    assert!(result.unwrap().is_object());
}

#[test]
fn test_xml_to_json_invalid() {
    match xml_to_json("<root><unclosed>") {
        Err(DataflowError::Validation(m)) => assert!(m.starts_with("Failed to parse XML: "), "{m}"),
        other => panic!("expected a validation error, got {other:?}"),
    }
}

#[test]
fn test_xml_to_json_with_attributes() {
    assert!(xml_to_json(r#"<person id="123"><name>John</name></person>"#).is_ok());
}

#[test]
fn test_xml_to_json_nested() {
    let result = xml_to_json(r#"<root><user><name>Alice</name><email>alice@example.com</email></user></root>"#);
    assert!(result.is_ok());
    assert!(result.unwrap().is_object());
}

#[test]
fn a_string_source_holding_json_is_read_and_anything_else_is_kept() {
    assert_eq!(parsed_source_value(j(r#""{\"a\": 1}""#)), j(r#"{"a": 1}"#));
    assert_eq!(parsed_source_value(j(r#""plain""#)), j(r#""plain""#));
    assert_eq!(parsed_source_value(j("[1, 2]")), j("[1, 2]"));
}
