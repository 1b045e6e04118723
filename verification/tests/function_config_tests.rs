use dataflow_rs::config::{BUILTIN_FUNCTION_NAMES, BuiltinKind, builtin_function_kind};
use dataflow_rs::error::DataflowError;
use dataflow_rs::filter::RejectAction;
use dataflow_rs::function::{FunctionConfig, function_config_from_json};
use dataflow_rs::integration::{EnrichConfig, EnrichErrorAction, HttpCallConfig, HttpMethod, PublishKafkaConfig};
use dataflow_rs::json::{Json, Number};
use dataflow_rs::log::LogLevel;
use dataflow_rs::reading::parse_json_text;

fn j(text: &str) -> Json {
    parse_json_text(text).unwrap()
}

fn err_text(r: Result<FunctionConfig, DataflowError>) -> String {
    match r {
        Err(DataflowError::Deserialization(m)) => m,
        other => panic!("expected a deserialization error, got {:?}", other),
    }
}

#[test]
fn an_unknown_name_is_a_custom_function_with_its_input() {
    let r = function_config_from_json(&j(r#"{"name": "pg_query", "input": {"database": "orders"}}"#));
    match r {
        Ok(FunctionConfig::Custom { name, input }) => {
            assert_eq!(name, "pg_query");
            assert_eq!(input, j(r#"{"database": "orders"}"#));
        }
        other => panic!("expected a custom function, got {:?}", other),
    }
}

#[test]
fn a_missing_name_or_input_is_refused() {
    assert_eq!(err_text(function_config_from_json(&j(r#"{"input": {}}"#))), "missing field `name`");
    assert_eq!(err_text(function_config_from_json(&j(r#"{"name": "map"}"#))), "missing field `input`");
    assert_eq!(
        err_text(function_config_from_json(&j(r#"{"name": 3, "input": {}}"#))),
        "invalid type for `name`, expected a string"
    );
}

#[test]
fn a_map_input_is_read_as_a_map_config() {
    let r = function_config_from_json(&j(
        r#"{"name": "map", "input": {"mappings": [{"path": "data.x", "logic": 1}]}}"#,
    ));
    match r {
        Ok(FunctionConfig::Mapping { input, .. }) => assert_eq!(input.mappings.len(), 1),
        other => panic!("expected a map function, got {:?}", other),
    }
}

#[test]
fn a_refused_builtin_input_names_the_function() {
    let m = err_text(function_config_from_json(&j(r#"{"name": "map", "input": {}}"#)));
    assert_eq!(m, "config for function 'map': Missing 'mappings' array in input");
    let m = err_text(function_config_from_json(&j(r#"{"name": "filter", "input": {}}"#)));
    assert_eq!(m, "config for function 'filter': missing field `condition`");
}

#[test]
fn both_validation_spellings_read_as_validation() {
    for name in ["validate", "validation"] {
        let text = format!(r#"{{"name": "{name}", "input": {{"rules": [{{"logic": true}}]}}}}"#);
        let r = function_config_from_json(&j(&text)).unwrap();
        assert_eq!(r.function_name(), "validate");
    }
}

#[test]
fn a_filter_rejects_with_halt_unless_told_to_skip() {
    match function_config_from_json(&j(r#"{"name": "filter", "input": {"condition": true}}"#)) {
        Ok(FunctionConfig::Filter { input, .. }) => assert_eq!(input.on_reject, RejectAction::Halt),
        other => panic!("expected a filter, got {:?}", other),
    }
    match function_config_from_json(&j(r#"{"name": "filter", "input": {"condition": true, "on_reject": "skip"}}"#)) {
        Ok(FunctionConfig::Filter { input, .. }) => assert_eq!(input.on_reject, RejectAction::Skip),
        other => panic!("expected a filter, got {:?}", other),
    }
    let m = err_text(function_config_from_json(&j(
        r#"{"name": "filter", "input": {"condition": true, "on_reject": "maybe"}}"#,
    )));
    assert!(m.starts_with("config for function 'filter': "));
}

#[test]
fn a_log_reads_level_message_and_fields() {
    match function_config_from_json(&j(
        r#"{"name": "log", "input": {"level": "warn", "message": "hi", "fields": {"a": 1, "b": {"var": "x"}}}}"#,
    )) {
        Ok(FunctionConfig::Log { input, .. }) => {
            assert_eq!(input.level, LogLevel::Warn);
            assert_eq!(input.message, j(r#""hi""#));
            assert_eq!(input.fields.len(), 2);
            assert_eq!(input.fields[0].0, "a");
        }
        other => panic!("expected a log, got {:?}", other),
    }
    match function_config_from_json(&j(r#"{"name": "log", "input": {"message": "hi"}}"#)) {
        Ok(FunctionConfig::Log { input, .. }) => assert_eq!(input.level, LogLevel::Info),
        other => panic!("expected a log, got {:?}", other),
    }
}

#[test]
fn an_http_call_reads_defaults_and_aliases() {
    match function_config_from_json(&j(
        r#"{"name": "http_call", "input": {"connector": "api", "path_logic": "/orders", "headers": {"x-a": "1"}}}"#,
    )) {
        Ok(FunctionConfig::HttpCall { input, .. }) => {
            assert_eq!(input.method, HttpMethod::Get);
            assert_eq!(*input.connector.as_json(), j(r#""api""#));
            assert_eq!(*input.path.as_ref().unwrap().as_json(), j(r#""/orders""#));
            assert_eq!(input.headers.len(), 1);
            assert_eq!(*input.timeout_ms.as_json(), Json::Num(Number::UInt(30000)));
        }
        other => panic!("expected an http call, got {:?}", other),
    }
}

#[test]
fn an_http_call_refuses_unknown_and_duplicate_fields() {
    let m = err_text(function_config_from_json(&j(
        r#"{"name": "http_call", "input": {"connector": "api", "verb": "GET"}}"#,
    )));
    assert!(m.starts_with("config for function 'http_call': unknown field `verb`, expected one of `connector`"));
    let m = err_text(function_config_from_json(&j(
        r#"{"name": "http_call", "input": {"connector": "api", "path": "/a", "path_logic": "/b"}}"#,
    )));
    assert_eq!(m, "config for function 'http_call': duplicate field `path`");
    let m = err_text(function_config_from_json(&j(r#"{"name": "http_call", "input": {"method": "GET"}}"#)));
    assert_eq!(m, "config for function 'http_call': missing field `connector`");
    let m = err_text(function_config_from_json(&j(
        r#"{"name": "http_call", "input": {"connector": "api", "method": "FETCH"}}"#,
    )));
    assert!(m.starts_with("config for function 'http_call': unknown variant"));
}

#[test]
fn an_enrich_needs_a_merge_path_and_fails_by_default() {
    let m = err_text(function_config_from_json(&j(r#"{"name": "enrich", "input": {"connector": "api"}}"#)));
    assert_eq!(m, "config for function 'enrich': missing field `merge_path`");
    match function_config_from_json(&j(
        r#"{"name": "enrich", "input": {"connector": "api", "merge_path": "data.user", "method": "POST"}}"#,
    )) {
        Ok(FunctionConfig::Enrich { input, .. }) => {
            assert_eq!(input.on_error, EnrichErrorAction::Fail);
            assert_eq!(input.method, HttpMethod::Post);
        }
        other => panic!("expected an enrich, got {:?}", other),
    }
}

#[test]
fn a_publish_kafka_reads_key_and_value_aliases() {
    match function_config_from_json(&j(
        r#"{"name": "publish_kafka", "input": {"connector": "k", "topic": "t", "key_logic": {"var": "id"}}}"#,
    )) {
        Ok(FunctionConfig::PublishKafka { input, .. }) => {
            assert_eq!(*input.key.as_ref().unwrap().as_json(), j(r#"{"var": "id"}"#));
            assert!(input.value.is_none());
        }
        other => panic!("expected a publish_kafka, got {:?}", other),
    }
    let m = err_text(function_config_from_json(&j(r#"{"name": "publish_kafka", "input": {"connector": "k"}}"#)));
    assert_eq!(m, "config for function 'publish_kafka': missing field `topic`");
}

fn parse(text: &str) -> Result<FunctionConfig, String> {
    match function_config_from_json(&j(text)) {
        Ok(c) => Ok(c),
        Err(DataflowError::Deserialization(m)) => Err(m),
        Err(other) => panic!("unexpected error {:?}", other),
    }
}

/// The smallest `input` that parses for each built-in name.
fn minimal_input(name: &str) -> &'static str {
    match name {
        "map" => r#"{ "mappings": [] }"#,
        "validation" | "validate" => r#"{ "rules": [] }"#,
        "parse_json" | "parse_xml" | "publish_json" | "publish_xml" => r#"{ "source": "data.in", "target": "out" }"#,
        "filter" => r#"{ "condition": true }"#,
        "log" => r#"{ "message": "hi" }"#,
        "http_call" => r#"{ "connector": "c" }"#,
        "enrich" => r#"{ "connector": "c", "merge_path": "data.out" }"#,
        "publish_kafka" => r#"{ "connector": "c", "topic": "t" }"#,
        _ => "{}",
    }
}

#[test]
fn map_with_valid_config_deserializes_to_map_variant() {
    let cfg = parse(r#"{"name": "map", "input": {"mappings": [{"path": "data.x", "logic": {"var": "data.y"}}]}}"#)
        .expect("valid map config should deserialize");
    assert!(matches!(cfg, FunctionConfig::Mapping { .. }));
}

#[test]
fn map_with_missing_mappings_gives_clear_error() {
    let msg = parse(r#"{"name": "map", "input": {}}"#).expect_err("map with empty input should fail");
    assert!(msg.starts_with("config for function 'map':"), "got: {msg}");
    assert!(msg.contains("mappings"), "got: {msg}");
}

#[test]
fn map_with_wrong_input_shape_gives_clear_error() {
    let msg = parse(r#"{"name": "map", "input": {"mappings": "not an array"}}"#)
        .expect_err("map with bad mappings type should fail");
    assert!(msg.starts_with("config for function 'map':"), "got: {msg}");
}

#[test]
fn validation_accepts_both_spellings() {
    for name in ["validate", "validation"] {
        let cfg = parse(&format!(r#"{{"name": "{name}", "input": {{"rules": []}}}}"#))
            .unwrap_or_else(|e| panic!("'{name}' should deserialize: {e}"));
        assert!(matches!(cfg, FunctionConfig::Validation { .. }));
    }
}

#[test]
fn unknown_name_falls_through_to_custom() {
    let cfg = parse(r#"{"name": "my_custom_handler", "input": {"anything": "goes"}}"#)
        .expect("unknown name should produce Custom");
    match cfg {
        FunctionConfig::Custom { name, .. } => assert_eq!(name, "my_custom_handler"),
        other => panic!("expected Custom, got {other:?}"),
    }
}

#[test]
fn missing_name_field_errors() {
    let err = parse(r#"{"input": {}}"#).expect_err("missing name should fail");
    assert!(err.contains("name"));
}

#[test]
fn missing_input_field_errors() {
    let err = parse(r#"{"name": "map"}"#).expect_err("missing input should fail");
    assert!(err.contains("input"));
}

#[test]
fn http_call_with_missing_connector_gives_clear_error() {
    let msg = parse(r#"{"name": "http_call", "input": {"method": "GET"}}"#).expect_err("http_call needs connector");
    assert!(msg.starts_with("config for function 'http_call':"), "got: {msg}");
    assert!(msg.contains("connector"));
}

#[test]
fn builtin_names_never_fall_through_to_custom() {
    for name in BUILTIN_FUNCTION_NAMES {
        match parse(&format!(r#"{{"name": "{name}", "input": {{}}}}"#)) {
            Ok(c) => assert!(!matches!(c, FunctionConfig::Custom { .. }), "name '{name}' silently fell through to Custom"),
            Err(e) => assert!(
                e.starts_with(&format!("config for function '{name}':")),
                "name '{name}' failed without envelope: {e}"
            ),
        }
        assert!(builtin_function_kind(name).is_some(), "name '{name}' is in BUILTIN_FUNCTION_NAMES but classifies as None");
    }
}

fn parse_http_call(input: &str) -> Result<HttpCallConfig, String> {
    match parse(&format!(r#"{{"name": "http_call", "input": {input}}}"#))? {
        FunctionConfig::HttpCall { input, .. } => Ok(input),
        other => panic!("expected HttpCall, got {other:?}"),
    }
}

#[test]
fn http_call_response_path_is_read_under_its_own_name() {
    let cfg = parse_http_call(r#"{"connector": "c", "response_path": "data.x"}"#).expect("response_path should parse");
    assert_eq!(cfg.response_path.as_ref().map(|t| t.as_json()), Some(&j(r#""data.x""#)));
}

#[test]
fn http_call_response_path_accepts_the_output_alias() {
    let cfg = parse_http_call(r#"{"connector": "c", "output": "data.x"}"#).expect("output should be accepted as an alias");
    assert_eq!(cfg.response_path.as_ref().map(|t| t.as_json()), Some(&j(r#""data.x""#)));
}

#[test]
fn http_call_response_path_is_optional() {
    let cfg = parse_http_call(r#"{"connector": "c"}"#).expect("no destination is valid");
    assert!(cfg.response_path.is_none());
}

#[test]
fn http_call_rejects_both_destination_keys_in_either_order() {
    for input in [
        r#"{"connector": "c", "response_path": "a", "output": "b"}"#,
        r#"{"connector": "c", "output": "b", "response_path": "a"}"#,
    ] {
        let msg = parse_http_call(input).expect_err("supplying both destination keys must fail");
        assert!(msg.starts_with("config for function 'http_call':"), "got: {msg}");
        assert!(msg.contains("duplicate field"), "got: {msg}");
    }
}

#[test]
fn http_call_rejects_a_misspelled_destination_field() {
    for bad in ["outputs", "Output", "respose_path", "response-path"] {
        let msg = parse_http_call(&format!(r#"{{"connector": "c", "{bad}": "data.x"}}"#))
            .expect_err("a misspelled field must be rejected, not silently discarded");
        assert!(msg.starts_with("config for function 'http_call':"), "got: {msg}");
        assert!(msg.contains("unknown field"), "got: {msg}");
        assert!(msg.contains(bad), "got: {msg}");
    }
}

#[test]
fn enrich_does_not_accept_the_output_alias() {
    let msg = parse(r#"{"name": "enrich", "input": {"connector": "c", "output": "data.x"}}"#)
        .expect_err("enrich has no `output` field");
    assert!(msg.starts_with("config for function 'enrich':"), "got: {msg}");
    let ok = parse(r#"{"name": "enrich", "input": {"connector": "c", "merge_path": "data.x"}}"#)
        .expect("merge_path is enrich's destination field");
    assert!(matches!(ok, FunctionConfig::Enrich { .. }));
}

#[test]
fn publish_kafka_rejects_unknown_fields() {
    let err = parse(r#"{"name": "publish_kafka", "input": {"connector": "c", "topic": "t", "tpoic": "typo"}}"#)
        .expect_err("publish_kafka should reject an unknown field");
    assert!(err.contains("unknown field"), "got: {err}");
}

#[test]
fn connector_is_returned_for_the_three_typed_integrations() {
    let cases = [
        (r#"{"name": "http_call", "input": {"connector": "user_service"}}"#, "user_service"),
        (r#"{"name": "enrich", "input": {"connector": "ref_data", "merge_path": "data.out"}}"#, "ref_data"),
        (r#"{"name": "publish_kafka", "input": {"connector": "events", "topic": "t"}}"#, "events"),
    ];
    for (input, expected) in cases {
        let cfg = parse(input).expect("should parse");
        assert_eq!(cfg.connector().and_then(|c| c.as_static()), Some(expected), "for {input}");
    }
}

#[test]
fn connector_is_none_for_every_non_connector_builtin() {
    for name in BUILTIN_FUNCTION_NAMES {
        if matches!(name, "http_call" | "enrich" | "publish_kafka") {
            continue;
        }
        let cfg = parse(&format!(r#"{{"name": "{name}", "input": {}}}"#, minimal_input(name)))
            .unwrap_or_else(|e| panic!("'{name}' should parse: {e}"));
        assert!(cfg.connector().is_none(), "'{name}' names no connector");
    }
}

#[test]
fn builtin_kinds_partition_matches_the_sync_builtin_classifier() {
    for name in BUILTIN_FUNCTION_NAMES {
        let kind = builtin_function_kind(name).unwrap_or_else(|| panic!("'{name}' must classify as a built-in"));
        let cfg = parse(&format!(r#"{{"name": "{name}", "input": {}}}"#, minimal_input(name)))
            .unwrap_or_else(|e| panic!("'{name}' should parse with minimal input: {e}"));
        assert_eq!(cfg.is_sync_builtin(), matches!(kind, BuiltinKind::SelfContained), "'{name}'");
    }
}

fn http_config(input: &str) -> HttpCallConfig {
    HttpCallConfig::from_json(&j(input)).unwrap()
}

#[test]
fn as_str_round_trips_through_deserialize() {
    for m in HttpMethod::ALL.iter() {
        let cfg = HttpCallConfig::from_json(&j(&format!(r#"{{"connector": "c", "method": "{}"}}"#, m.as_str())))
            .unwrap_or_else(|_| panic!("'{}' should deserialize", m.as_str()));
        assert_eq!(cfg.method, *m);
    }
}

#[test]
fn lowercase_method_is_rejected() {
    for bad in ["get", "Post", "HEAD"] {
        assert!(HttpCallConfig::from_json(&j(&format!(r#"{{"connector": "c", "method": "{bad}"}}"#))).is_err());
    }
}

#[test]
fn format_fields_default_to_none() {
    let cfg = http_config(r#"{"connector": "c"}"#);
    assert!(cfg.body_format.is_none());
    assert!(cfg.response_format.is_none());
}

#[test]
fn misspelled_format_field_is_rejected() {
    let err = HttpCallConfig::from_json(&j(r#"{"connector": "c", "body_fromat": "form"}"#))
        .expect_err("unknown field must be rejected");
    let msg = match err {
        DataflowError::Validation(m) => m,
        other => panic!("unexpected {other:?}"),
    };
    assert!(msg.contains("body_fromat"), "{msg}");
    assert!(msg.contains("`body_format`"), "{msg}");
    assert!(msg.contains("`response_format`"), "{msg}");
}

#[test]
fn the_pre_39_logic_spellings_still_deserialize() {
    let http = HttpCallConfig::from_json(&j(r#"{"connector": "c", "path_logic": {"var": "data.id"}, "body_logic": {"var": "data.obj"}}"#))
        .expect("pre-3.9 http_call spelling must still load");
    assert_eq!(http.path.unwrap().as_json(), &j(r#"{"var": "data.id"}"#));
    assert_eq!(http.body.unwrap().as_json(), &j(r#"{"var": "data.obj"}"#));

    let enrich = EnrichConfig::from_json(&j(r#"{"connector": "c", "merge_path": "data.out", "path_logic": {"var": "data.id"}}"#))
        .expect("pre-3.9 enrich spelling must still load");
    assert_eq!(enrich.path.unwrap().as_json(), &j(r#"{"var": "data.id"}"#));

    let kafka = PublishKafkaConfig::from_json(&j(r#"{"connector": "c", "topic": "t", "key_logic": {"var": "data.id"}, "value_logic": {"var": "data.obj"}}"#))
        .expect("pre-3.9 publish_kafka spelling must still load");
    assert_eq!(kafka.key.unwrap().as_json(), &j(r#"{"var": "data.id"}"#));
    assert_eq!(kafka.value.unwrap().as_json(), &j(r#"{"var": "data.obj"}"#));
}

#[test]
fn supplying_both_spellings_is_a_duplicate_field_error() {
    let err = HttpCallConfig::from_json(&j(r#"{"connector": "c", "path": "/a", "path_logic": {"var": "data.id"}}"#))
        .expect_err("both spellings must be rejected");
    assert!(matches!(err, DataflowError::Validation(ref m) if m.contains("duplicate field")), "{err:?}");
}
