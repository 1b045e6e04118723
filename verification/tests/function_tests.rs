use dataflow_rs::config::{ConnectorName, HttpCallName, MapName};
use dataflow_rs::function::{FunctionConfig, function_input_error};
use dataflow_rs::integration::{HttpCallConfig, HttpMethod};
use dataflow_rs::json::{Json, Number};
use dataflow_rs::map::MapConfig;
use dataflow_rs::template::Template;

fn to_json(v: &serde_json::Value) -> Json {
    match v {
        serde_json::Value::Null => Json::Null,
        serde_json::Value::Bool(b) => Json::Bool(*b),
        serde_json::Value::Number(n) => {
            if let Some(i) = n.as_i64() {
                Json::Num(Number::Int(i))
            } else if let Some(u) = n.as_u64() {
                Json::Num(Number::UInt(u))
            } else {
                Json::Num(Number::Float(n.to_string()))
            }
        }
        serde_json::Value::String(s) => Json::Str(s.clone()),
        serde_json::Value::Array(a) => Json::Array(a.iter().map(to_json).collect()),
        serde_json::Value::Object(m) => {
            Json::Object(m.iter().map(|(k, v)| (k.clone(), to_json(v))).collect())
        }
    }
}

fn j(text: &str) -> Json {
    to_json(&serde_json::from_str(text).unwrap())
}



fn http_call(connector: Json) -> FunctionConfig {
    FunctionConfig::HttpCall {
        name: HttpCallName::HttpCall,
        input: HttpCallConfig {
            connector: Template::new(connector),
            method: HttpMethod::Get,
            path: None,
            headers: Vec::new(),
            body: None,
            body_format: None,
            response_path: None,
            response_format: None,
            timeout_ms: Template::new(j("30000")),
        },
    }
}

fn custom(input: &str) -> FunctionConfig {
    FunctionConfig::Custom { name: "pg_query".to_string(), input: j(input) }
}

#[test]
fn connector_reads_the_custom_convention() {
    let cfg = custom(r#"{"connector": "pg_main", "database": "orders"}"#);
    assert_eq!(cfg.connector().and_then(|c| c.as_static()), Some("pg_main"));
}

#[test]
fn connector_is_none_for_a_custom_input_without_a_string_connector() {
    for input in [
        "{}",
        r#"{"connector": 7}"#,
        r#"{"connector": true}"#,
        r#"{"connector": null}"#,
        r#"{"connector": ["a"]}"#,
        r#"{"connector": {"n": "a"}}"#,
        "[]",
        "7",
    ] {
        assert_eq!(custom(input).connector(), None, "for input {input}");
    }
}

#[test]
fn connector_returns_an_empty_name_verbatim() {
    let typed = http_call(j(r#""""#));
    assert_eq!(typed.connector().and_then(|c| c.as_static()), Some(""));
    let custom = custom(r#"{"connector": ""}"#);
    assert_eq!(custom.connector().and_then(|c| c.as_static()), Some(""));
}

#[test]
fn connector_returns_a_non_ascii_name_byte_for_byte() {
    let cfg = http_call(j(r#""連携先""#));
    assert_eq!(cfg.connector().and_then(|c| c.as_static()), Some("連携先"));
}

#[test]
fn a_computed_connector_is_reported_as_computed() {
    let authored = j(r#"{"var": "data.gw"}"#);
    let cfg = http_call(authored.copy());
    assert!(matches!(cfg.connector(), Some(ConnectorName::Computed(a)) if *a == authored));
}

#[test]
fn names_and_sync_classification() {
    let map = FunctionConfig::Mapping { name: MapName::Mapping, input: MapConfig { mappings: Vec::new() } };
    assert_eq!(map.function_name(), "map");
    assert!(map.is_sync_builtin());
    assert!(map.connector().is_none());
    let http = http_call(j(r#""c""#));
    assert_eq!(http.function_name(), "http_call");
    assert!(!http.is_sync_builtin());
    let c = custom("{}");
    assert_eq!(c.function_name(), "pg_query");
    assert!(!c.is_sync_builtin());
}

#[test]
fn an_input_error_names_the_function_and_drops_the_position() {
    assert_eq!(
        function_input_error("map", "missing field `mappings` at line 1 column 2"),
        "config for function 'map': missing field `mappings`"
    );
    assert_eq!(
        function_input_error("log", "bad value at line 3 near x at line 4 column 1"),
        "config for function 'log': bad value at line 3 near x"
    );
    assert_eq!(function_input_error("filter", "no position"), "config for function 'filter': no position");
}
