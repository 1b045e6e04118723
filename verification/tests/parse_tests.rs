use dataflow_rs::compiler::LogicCompiler;
use dataflow_rs::error::DataflowError;
use dataflow_rs::json::{Json, Number};
use dataflow_rs::message::Message;
use dataflow_rs::parse::{ParseConfig, resolve_parsed_source, xml_text};

fn to_json(v: &serde_json::Value) -> Json {
    match v {
        serde_json::Value::Null => Json::Null,
        serde_json::Value::Bool(b) => Json::Bool(*b),
        serde_json::Value::Number(n) => {
            if let Some(i) = n.as_i64() {
                Json::Num(Number::Int(i))
            } else if let Some(u) = n.as_u64() {
                Json::Num(Number::UInt(u))
            } else {
                Json::Num(Number::Float(n.to_string()))
            }
        }
        serde_json::Value::String(s) => Json::Str(s.clone()),
        serde_json::Value::Array(a) => Json::Array(a.iter().map(to_json).collect()),
        serde_json::Value::Object(m) => {
            Json::Object(m.iter().map(|(k, v)| (k.clone(), to_json(v))).collect())
        }
    }
}

fn j(text: &str) -> Json {
    to_json(&serde_json::from_str(text).unwrap())
}

fn validation_text(e: DataflowError) -> String {
    match e {
        DataflowError::Validation(m) => m,
        other => panic!("expected a validation error, got {other:?}"),
    }
}

#[test]
fn test_parse_config_from_json() {
    let input = j(r#"{"source": "payload", "target": "input_data"}"#);
    let config = ParseConfig::from_json(&input).unwrap();
    assert_eq!(*config.source.as_json(), j(r#""payload""#));
    assert_eq!(*config.target.as_json(), j(r#""input_data""#));
}

#[test]
fn test_parse_config_missing_source() {
    assert!(ParseConfig::from_json(&j(r#"{"target": "input_data"}"#)).is_err());
}

#[test]
fn test_parse_config_missing_target() {
    assert!(ParseConfig::from_json(&j(r#"{"source": "payload"}"#)).is_err());
}

#[test]
fn the_missing_field_errors_name_the_field() {
    let e = ParseConfig::from_json(&j(r#"{"target": "t"}"#)).unwrap_err();
    assert_eq!(validation_text(e), "Missing 'source' in parse config");
    let e = ParseConfig::from_json(&j(r#"{"source": "s"}"#)).unwrap_err();
    assert_eq!(validation_text(e), "Missing 'target' in parse config");
    let e = ParseConfig::from_json(&j("{}")).unwrap_err();
    assert_eq!(validation_text(e), "Missing 'source' in parse config");
}

#[test]
fn a_computed_source_is_kept_as_authored() {
    let input = j(r#"{"source": {"cat": ["data.", {"var": "temp_data.i"}]}, "target": "out"}"#);
    let config = ParseConfig::from_json(&input).unwrap();
    assert_eq!(*config.source.as_json(), j(r#"{"cat": ["data.", {"var": "temp_data.i"}]}"#));
}

fn message() -> Message {
    Message::builder()
        .payload(j(r#"{"body": {"user": {"name": "Alice"}}}"#))
        .data(j(r#"{"existing": {"value": 42}}"#))
        .temp_data(j(r#"{"i": 3}"#))
        .build()
}

fn config() -> ParseConfig {
    ParseConfig::from_json(&j(r#"{"source": "payload", "target": "out"}"#)).unwrap()
}

#[test]
fn the_source_payload_is_the_whole_payload() {
    let m = message();
    assert_eq!(config().extract_source(&m, "payload"), j(r#"{"body": {"user": {"name": "Alice"}}}"#));
}

#[test]
fn a_payload_path_reads_inside_the_payload() {
    let m = message();
    assert_eq!(config().extract_source(&m, "payload.body.user"), j(r#"{"name": "Alice"}"#));
    assert_eq!(config().extract_source(&m, "payload.body.missing"), Json::Null);
}

#[test]
fn a_data_path_reads_inside_data() {
    let m = message();
    assert_eq!(config().extract_source(&m, "data.existing"), j(r#"{"value": 42}"#));
    assert_eq!(config().extract_source(&m, "data.existing.value"), j("42"));
}

#[test]
fn any_other_source_is_a_context_path() {
    let m = message();
    assert_eq!(config().extract_source(&m, "temp_data.i"), j("3"));
    assert_eq!(config().extract_source(&m, "nowhere"), Json::Null);
}

#[test]
fn xml_must_come_from_a_string() {
    let text = j(r#""<root/>""#);
    assert_eq!(xml_text("payload", &text).unwrap(), "<root/>");
    let e = xml_text("payload", &j(r#"{"not": "a string"}"#)).unwrap_err();
    assert_eq!(validation_text(e), "ParseXml: Source 'payload' is not a string");
}

#[test]
fn a_string_holding_json_is_stored_as_that_json() {
    let raw = j(r#""{\"name\":\"John\",\"age\":30}""#);
    let reparsed = Some(j(r#"{"name": "John", "age": 30}"#));
    assert_eq!(resolve_parsed_source(raw, reparsed), j(r#"{"name": "John", "age": 30}"#));
    // A string that is not JSON is stored as it is.
    assert_eq!(resolve_parsed_source(j(r#""plain""#), None), j(r#""plain""#));
    // Anything else is stored as it is.
    assert_eq!(resolve_parsed_source(j("[1, 2]"), None), j("[1, 2]"));
}

#[test]
fn an_uncompiled_literal_source_and_target_resolve_as_written() {
    let compiler = LogicCompiler::new();
    let m = message();
    let config = ParseConfig::from_json(&j(r#"{"source": "payload.body", "target": "user.profile"}"#)).unwrap();
    assert_eq!(config.resolve_source(compiler.engine(), &m).unwrap(), "payload.body");
    let (dotted, parts) = config.resolve_target_path(compiler.engine(), &m).unwrap();
    assert_eq!(dotted, "data.user.profile");
    assert_eq!(parts, ["data", "user", "profile"]);
}

#[test]
fn a_computed_source_resolves_against_the_message_once_compiled() {
    let compiler = LogicCompiler::new();
    let m = message();
    let mut config = ParseConfig::from_json(&j(
        r#"{"source": {"cat": ["data.", {"var": "temp_data.i"}]}, "target": "out"}"#,
    ))
    .unwrap();
    assert!(config.resolve_source(compiler.engine(), &m).is_err());
    config.source.compile(&compiler, "parse source").unwrap();
    config.target.compile(&compiler, "parse target").unwrap();
    assert!(config.target.is_constant());
    assert_eq!(config.target.constant_path(), Some("data.out"));
    assert_eq!(config.resolve_source(compiler.engine(), &m).unwrap(), "data.3");
    let (dotted, _) = config.resolve_target_path(compiler.engine(), &m).unwrap();
    assert_eq!(dotted, "data.out");
}

fn parse_config(source: &str, target: &str) -> ParseConfig {
    ParseConfig::from_json(&j(&format!(r#"{{"source": "{source}", "target": "{target}"}}"#))).unwrap()
}

fn data_at<'a>(m: &'a Message, path: &str) -> Option<&'a Json> {
    dataflow_rs::paths::get_nested_value(m.data(), path)
}

#[test]
fn test_execute_parse_json_from_payload() {
    let compiler = LogicCompiler::new();
    let mut message = Message::new(j(r#"{"name": "John", "age": 30}"#));
    let config = parse_config("payload", "input");
    let (status, changes) = config.execute_parse_json(&mut message, compiler.engine()).unwrap();
    assert_eq!(status, 200);
    assert_eq!(changes.len(), 1);
    assert_eq!(changes[0].path, "data.input");
    assert_eq!(data_at(&message, "input.name"), Some(&j(r#""John""#)));
    assert_eq!(data_at(&message, "input.age"), Some(&j("30")));
}

#[test]
fn test_execute_parse_json_from_nested_payload() {
    let compiler = LogicCompiler::new();
    let mut message = Message::new(j(r#"{"body": {"user": {"name": "Alice"}}}"#));
    let config = parse_config("payload.body.user", "user_data");
    let (status, _) = config.execute_parse_json(&mut message, compiler.engine()).unwrap();
    assert_eq!(status, 200);
    assert_eq!(data_at(&message, "user_data.name"), Some(&j(r#""Alice""#)));
}

#[test]
fn test_execute_parse_json_from_data() {
    let compiler = LogicCompiler::new();
    let mut message = Message::builder().data(j(r#"{"existing": {"value": 42}}"#)).build();
    let config = parse_config("data.existing", "copied");
    assert!(config.execute_parse_json(&mut message, compiler.engine()).is_ok());
    assert_eq!(data_at(&message, "copied.value"), Some(&j("42")));
}

#[test]
fn test_execute_parse_xml_simple() {
    let compiler = LogicCompiler::new();
    let mut message = Message::new(j(r#""<root><name>John</name><age>30</age></root>""#));
    let config = parse_config("payload", "parsed");
    let (status, _) = config.execute_parse_xml(&mut message, compiler.engine()).unwrap();
    assert_eq!(status, 200);
    assert!(data_at(&message, "parsed").unwrap().is_object());
}

#[test]
fn test_execute_parse_xml_not_string() {
    let compiler = LogicCompiler::new();
    let mut message = Message::new(j(r#"{"not": "a string"}"#));
    let config = parse_config("payload", "parsed");
    assert!(config.execute_parse_xml(&mut message, compiler.engine()).is_err());
}

#[test]
fn test_execute_parse_json_from_string_payload() {
    let compiler = LogicCompiler::new();
    let mut message = Message::new(Json::Str(r#"{"name":"John","age":30}"#.to_string()));
    let config = parse_config("payload", "input");
    let (status, _) = config.execute_parse_json(&mut message, compiler.engine()).unwrap();
    assert_eq!(status, 200);
    assert_eq!(data_at(&message, "input.name"), Some(&j(r#""John""#)));
    assert_eq!(data_at(&message, "input.age"), Some(&j("30")));
}
