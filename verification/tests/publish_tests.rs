use dataflow_rs::json::{Json, Number};
use dataflow_rs::message::Message;
use dataflow_rs::publish::{
    execute_publish_json, execute_publish_xml, PublishConfig, PublishFormat, default_root_element, escape_xml, json_to_xml, sanitize_xml_name,
    serialize_value_to_xml_content, value_to_xml_string,
};

fn to_json(v: &serde_json::Value) -> Json {
    match v {
        serde_json::Value::Null => Json::Null,
        serde_json::Value::Bool(b) => Json::Bool(*b),
        serde_json::Value::Number(n) => {
            if let Some(i) = n.as_i64() {
                Json::Num(Number::Int(i))
            } else if let Some(u) = n.as_u64() {
                Json::Num(Number::UInt(u))
            } else {
                Json::Num(Number::Float(n.to_string()))
            }
        }
        serde_json::Value::String(s) => Json::Str(s.clone()),
        serde_json::Value::Array(a) => Json::Array(a.iter().map(to_json).collect()),
        serde_json::Value::Object(m) => {
            Json::Object(m.iter().map(|(k, v)| (k.clone(), to_json(v))).collect())
        }
    }
}

fn j(text: &str) -> Json {
    to_json(&serde_json::from_str(text).unwrap())
}

#[test]
fn test_escape_xml() {
    assert_eq!(escape_xml("hello"), "hello");
    assert_eq!(escape_xml("<tag>"), "&lt;tag&gt;");
    assert_eq!(escape_xml("a & b"), "a &amp; b");
    assert_eq!(escape_xml("\"quoted\""), "&quot;quoted&quot;");
}

#[test]
fn test_sanitize_xml_name() {
    assert_eq!(sanitize_xml_name("valid"), "valid");
    assert_eq!(sanitize_xml_name("_valid"), "_valid");
    assert_eq!(sanitize_xml_name("123invalid"), "_123invalid");
    assert_eq!(sanitize_xml_name("has spaces"), "has_spaces");
    assert_eq!(sanitize_xml_name("has-dash"), "has-dash");
    assert_eq!(sanitize_xml_name(""), "_element");
}

#[test]
fn test_publish_config_from_json() {
    let config = PublishConfig::from_json(&j(r#"{"source": "output", "target": "json_string"}"#)).unwrap();
    assert_eq!(config.source, "output");
    assert_eq!(config.target, "json_string");
    assert!(!config.pretty);
    assert_eq!(config.root_element, "root");
}

#[test]
fn test_publish_config_with_options() {
    let config = PublishConfig::from_json(&j(
        r#"{"source": "data", "target": "xml_output", "pretty": true, "root_element": "document"}"#,
    ))
    .unwrap();
    assert_eq!(config.source, "data");
    assert_eq!(config.target, "xml_output");
    assert!(config.pretty);
    assert_eq!(config.root_element, "document");
}

#[test]
fn test_publish_config_missing_source() {
    assert!(PublishConfig::from_json(&j(r#"{"target": "output"}"#)).is_err());
}

#[test]
fn test_publish_config_missing_target() {
    assert!(PublishConfig::from_json(&j(r#"{"source": "input"}"#)).is_err());
}

#[test]
fn test_json_to_xml_simple() {
    let xml = json_to_xml(&j(r#"{"name": "Test", "value": 42}"#), "root").unwrap();
    assert!(xml.contains("<root>"));
    assert!(xml.contains("</root>"));
    assert!(xml.contains("<name>Test</name>"));
    assert!(xml.contains("<value>42</value>"));
}

#[test]
fn test_json_to_xml_nested() {
    let xml = json_to_xml(&j(r#"{"user": {"name": "Alice", "email": "alice@example.com"}}"#), "data").unwrap();
    assert!(xml.contains("<data>"));
    assert!(xml.contains("<user>"));
    assert!(xml.contains("<name>Alice</name>"));
}

#[test]
fn test_json_to_xml_array() {
    let xml = json_to_xml(&j("[1, 2, 3]"), "numbers").unwrap();
    assert!(xml.contains("<numbers>"));
    assert!(xml.contains("<item>1</item>"));
    assert!(xml.contains("<item>2</item>"));
    assert!(xml.contains("<item>3</item>"));
}

#[test]
fn test_json_to_xml_special_chars() {
    let xml = json_to_xml(&j(r#"{"text": "<script>alert('xss')</script>"}"#), "root").unwrap();
    assert!(xml.contains("&lt;script&gt;"));
    assert!(!xml.contains("<script>"));
}

#[test]
fn the_whole_document_is_exact() {
    let xml = json_to_xml(&j(r#"{"a": [true, null, -7], "b c": "x&y"}"#), "r").unwrap();
    assert_eq!(
        xml,
        "<r><a><item>true</item><item></item><item>-7</item></a><b_c>x&amp;y</b_c></r>"
    );
}

#[test]
fn a_scalar_document_is_its_text_inside_the_root() {
    assert_eq!(json_to_xml(&j("\"it's\""), "v").unwrap(), "<v>it&apos;s</v>");
    assert_eq!(json_to_xml(&j("1.5"), "v").unwrap(), "<v>1.5</v>");
    assert_eq!(json_to_xml(&j("18446744073709551615"), "v").unwrap(), "<v>18446744073709551615</v>");
}

#[test]
fn content_and_scalars() {
    assert_eq!(serialize_value_to_xml_content(&j(r#"{"1": 2}"#)).unwrap(), "<_1>2</_1>");
    assert_eq!(value_to_xml_string(&j("false")), "false");
    assert_eq!(value_to_xml_string(&j("[1]")), "");
    assert_eq!(default_root_element(), "root");
}

#[test]
fn escaped_text_has_no_markup() {
    let escaped = escape_xml("<a href=\"x\">'&'</a>");
    assert!(!escaped.contains('<') && !escaped.contains('>'));
    assert!(!escaped.contains('"') && !escaped.contains('\''));
}

#[test]
fn sanitized_names_start_with_a_letter_or_underscore() {
    for name in ["9lives", "-x", ".y", "ok", "é"] {
        let s = sanitize_xml_name(name);
        let first = s.chars().next().unwrap();
        assert!(first.is_ascii_alphabetic() || first == '_', "{name} -> {s}");
    }
    assert_eq!(sanitize_xml_name("é"), "_");
    assert_eq!(sanitize_xml_name("a.b-c"), "a.b-c");
}

fn publish_config(source: &str) -> PublishConfig {
    PublishConfig::from_json(&j(&format!(r#"{{"source": "{source}", "target": "out"}}"#))).unwrap()
}

#[test]
fn the_source_is_read_from_data() {
    let m = Message::builder()
        .data(j(r#"{"user": {"name": "Ada"}, "a.b": 1, "a": {"b": 2}}"#))
        .build();
    assert_eq!(publish_config("user").extract_source(&m), j(r#"{"name": "Ada"}"#));
    assert_eq!(publish_config("user.name").extract_source(&m), j(r#""Ada""#));
    assert_eq!(publish_config("data.user.name").extract_source(&m), j(r#""Ada""#));
    assert_eq!(publish_config("missing").extract_source(&m), Json::Null);
}

#[test]
fn a_literal_key_wins_over_the_path_it_spells() {
    let m = Message::builder().data(j(r#"{"a.b": 1, "a": {"b": 2}}"#)).build();
    assert_eq!(publish_config("a.b").extract_source(&m), j("1"));
}

fn config(source: &str, target: &str, root_element: &str) -> PublishConfig {
    PublishConfig {
        source: source.to_string(),
        target: target.to_string(),
        pretty: false,
        root_element: root_element.to_string(),
    }
}

#[test]
fn the_xml_output_is_the_source_under_the_root_element() {
    let m = Message::builder().data(j(r#"{"user": {"name": "John", "age": 30}}"#)).build();
    let xml = config("user", "user_xml", "user").xml_output(&m).unwrap();
    assert_eq!(xml, "<user><age>30</age><name>John</name></user>");
    assert!(xml.contains("<name>John</name>"));
}

#[test]
fn a_missing_or_null_source_is_refused_naming_it() {
    let m = Message::builder().data(j(r#"{"empty": null}"#)).build();
    let text = |r: Result<String, dataflow_rs::error::DataflowError>| match r {
        Err(dataflow_rs::error::DataflowError::Validation(m)) => m,
        other => panic!("expected a validation error, got {other:?}"),
    };
    assert_eq!(
        text(config("nonexistent", "output", "root").xml_output(&m)),
        "PublishXml: Source 'data.nonexistent' not found or is null"
    );
    assert_eq!(
        text(config("empty", "output", "root").xml_output(&m)),
        "PublishXml: Source 'data.empty' not found or is null"
    );
    match config("nonexistent", "output", "root").source_value(&m, PublishFormat::Json) {
        Err(dataflow_rs::error::DataflowError::Validation(msg)) => {
            assert_eq!(msg, "PublishJson: Source 'data.nonexistent' not found or is null")
        }
        other => panic!("expected a validation error, got {other:?}"),
    }
}

#[test]
fn a_nested_source_is_found() {
    let m = Message::builder().data(j(r#"{"response": {"body": {"message": "success"}}}"#)).build();
    let found = config("response.body", "output", "root").source_value(&m, PublishFormat::Json).unwrap();
    assert_eq!(found, &j(r#"{"message": "success"}"#));
}

#[test]
fn the_output_goes_under_data() {
    assert_eq!(config("user", "user_json", "root").target_path(), "data.user_json");
}

#[test]
fn sanitizing_keeps_the_length_and_is_idempotent() {
    for name in ["valid", "1abc", "a b!c", "_x", "9", "über", ""] {
        let r = sanitize_xml_name(name);
        if !name.is_empty() {
            let extra = if name.chars().next().unwrap().is_ascii_digit() { 1 } else { 0 };
            assert_eq!(r.chars().count(), name.chars().count() + extra, "{name}");
        }
        assert_eq!(sanitize_xml_name(&r), r, "{name}");
    }
}

fn message_with_data(initial: &str) -> Message {
    Message::builder().data(j(initial)).build()
}

fn stored_text(message: &Message, key: &str) -> String {
    match message.data().get(key) {
        Some(Json::Str(s)) => s.clone(),
        other => panic!("expected a string at data.{key}, got {other:?}"),
    }
}

fn config_for(source: &str, target: &str, pretty: bool, root: &str) -> PublishConfig {
    PublishConfig {
        source: source.to_string(),
        target: target.to_string(),
        pretty,
        root_element: root.to_string(),
    }
}

#[test]
fn test_execute_publish_json() {
    let mut message = message_with_data(r#"{"user": {"name": "John", "age": 30}}"#);
    let config = config_for("user", "user_json", false, "root");
    let result = execute_publish_json(&mut message, &config);
    assert!(result.is_ok());
    let (status, changes) = result.unwrap();
    assert_eq!(status, 200);
    assert_eq!(changes.len(), 1);
    let json_string = stored_text(&message, "user_json");
    assert!(json_string.contains("John"));
    assert!(json_string.contains("30"));
}

#[test]
fn test_execute_publish_json_pretty() {
    let mut message = message_with_data(r#"{"user": {"name": "Alice"}}"#);
    let config = config_for("user", "output", true, "root");
    let result = execute_publish_json(&mut message, &config);
    assert!(result.is_ok());
    let json_string = stored_text(&message, "output");
    assert!(json_string.contains('\n'));
}

#[test]
fn test_execute_publish_json_not_found() {
    let mut message = Message::new(j("{}"));
    let config = config_for("nonexistent", "output", false, "root");
    assert!(execute_publish_json(&mut message, &config).is_err());
}

#[test]
fn test_execute_publish_xml() {
    let mut message = message_with_data(r#"{"user": {"name": "John", "age": 30}}"#);
    let config = config_for("user", "user_xml", false, "user");
    let result = execute_publish_xml(&mut message, &config);
    assert!(result.is_ok());
    let (status, _) = result.unwrap();
    assert_eq!(status, 200);
    let xml_string = stored_text(&message, "user_xml");
    assert!(xml_string.contains("<user>"));
    assert!(xml_string.contains("</user>"));
    assert!(xml_string.contains("<name>John</name>"));
}

#[test]
fn test_execute_publish_xml_not_found() {
    let mut message = Message::new(j("{}"));
    let config = config_for("nonexistent", "output", false, "root");
    assert!(execute_publish_xml(&mut message, &config).is_err());
}

#[test]
fn test_execute_publish_json_nested_source() {
    let mut message = message_with_data(r#"{"response": {"body": {"message": "success"}}}"#);
    let config = config_for("response.body", "output", false, "root");
    let result = execute_publish_json(&mut message, &config);
    assert!(result.is_ok());
    let json_string = stored_text(&message, "output");
    assert!(json_string.contains("success"));
}

#[test]
fn a_compact_publish_keeps_the_order_the_value_was_authored_in() {
    let value = Json::Object(vec![
        ("b".to_string(), Json::Num(Number::Int(1))),
        ("a".to_string(), Json::Str("x\"y".to_string())),
    ]);
    let mut m = Message::builder().data(Json::Object(vec![("v".to_string(), value)])).build();
    execute_publish_json(&mut m, &config_for("v", "out", false, "root")).unwrap();
    assert_eq!(stored_text(&m, "out"), r#"{"b":1,"a":"x\"y"}"#);
}

#[test]
fn a_pretty_publish_is_indented_by_serde_json() {
    let mut m = message_with_data(r#"{"v": {"a": [1]}}"#);
    execute_publish_json(&mut m, &config_for("v", "out", true, "root")).unwrap();
    assert_eq!(stored_text(&m, "out"), "{\n  \"a\": [\n    1\n  ]\n}");
}
