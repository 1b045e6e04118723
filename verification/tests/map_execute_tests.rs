use dataflow_rs::compiler::LogicCompiler;
use dataflow_rs::json::{Json, Number};
use dataflow_rs::map::{MapConfig, MapMapping};
use dataflow_rs::message::Message;
use dataflow_rs::paths::get_nested_value;

fn to_json(v: &serde_json::Value) -> Json {
    match v {
        serde_json::Value::Null => Json::Null,
        serde_json::Value::Bool(b) => Json::Bool(*b),
        serde_json::Value::Number(n) => {
            if let Some(i) = n.as_i64() {
                Json::Num(Number::Int(i))
            } else if let Some(u) = n.as_u64() {
                Json::Num(Number::UInt(u))
            } else {
                Json::Num(Number::Float(n.to_string()))
            }
        }
        serde_json::Value::String(s) => Json::Str(s.clone()),
        serde_json::Value::Array(a) => Json::Array(a.iter().map(to_json).collect()),
        serde_json::Value::Object(m) => {
            Json::Object(m.iter().map(|(k, v)| (k.clone(), to_json(v))).collect())
        }
    }
}

fn j(text: &str) -> Json {
    to_json(&serde_json::from_str(text).unwrap())
}



fn config(compiler: &LogicCompiler, mappings: &[&str]) -> MapConfig {
    let mut config = MapConfig {
        mappings: mappings.iter().map(|m| MapMapping::from_json(&j(m)).unwrap()).collect(),
    };
    compiler.compile_map_logic(&mut config, "t", "w").unwrap();
    config
}

fn at<'a>(m: &'a Message, path: &str) -> Option<&'a Json> {
    get_nested_value(m.context(), path)
}

#[test]
fn test_map_metadata_assignment() {
    let compiler = LogicCompiler::new();
    let mut message = Message::builder().data(j(r#"{"SwiftMT": {"message_type": "103"}}"#)).build();
    let config = config(&compiler, &[r#"{"path": "metadata.SwiftMT.message_type", "logic": {"var": "data.SwiftMT.message_type"}}"#]);
    let (status, changes) = config.execute(&mut message, compiler.engine()).unwrap();
    assert_eq!(status, 200);
    assert_eq!(changes.len(), 1);
    assert_eq!(at(&message, "metadata.SwiftMT.message_type"), Some(&j(r#""103""#)));
}

#[test]
fn test_map_null_values_skip_assignment() {
    let compiler = LogicCompiler::new();
    let mut message = Message::builder()
        .data(j(r#"{"existing_field": "should_remain"}"#))
        .metadata(j(r#"{"existing_meta": "should_remain"}"#))
        .build();
    let config = config(
        &compiler,
        &[
            r#"{"path": "data.new_field", "logic": {"var": "data.non_existent_field"}}"#,
            r#"{"path": "metadata.new_meta", "logic": {"var": "data.another_non_existent"}}"#,
            r#"{"path": "data.actual_field", "logic": "actual_value"}"#,
        ],
    );
    let (status, changes) = config.execute(&mut message, compiler.engine()).unwrap();
    assert_eq!(status, 200);
    assert_eq!(changes.len(), 1);
    assert_eq!(changes[0].path, "data.actual_field");
    assert_eq!(at(&message, "data.new_field"), None);
    assert_eq!(at(&message, "metadata.new_meta"), None);
    assert_eq!(at(&message, "data.existing_field"), Some(&j(r#""should_remain""#)));
    assert_eq!(at(&message, "metadata.existing_meta"), Some(&j(r#""should_remain""#)));
    assert_eq!(at(&message, "data.actual_field"), Some(&j(r#""actual_value""#)));
}

#[test]
fn test_map_multiple_fields_including_metadata() {
    let compiler = LogicCompiler::new();
    let mut message = Message::builder()
        .data(j(r#"{"ISO20022_MX": {"document": {"TxInf": {"OrgnlGrpInf": {"OrgnlMsgNmId": "pacs.008.001.08"}}}}, "SwiftMT": {"message_type": "103"}}"#))
        .build();
    let config = config(
        &compiler,
        &[
            r#"{"path": "data.SwiftMT.message_type", "logic": "103"}"#,
            r#"{"path": "metadata.SwiftMT.message_type", "logic": {"var": "data.SwiftMT.message_type"}}"#,
            r#"{"path": "temp_data.original_msg_type", "logic": {"var": "data.ISO20022_MX.document.TxInf.OrgnlGrpInf.OrgnlMsgNmId"}}"#,
        ],
    );
    let (status, changes) = config.execute(&mut message, compiler.engine()).unwrap();
    assert_eq!(status, 200);
    assert_eq!(changes.len(), 3);
    assert_eq!(at(&message, "data.SwiftMT.message_type"), Some(&j(r#""103""#)));
    assert_eq!(at(&message, "metadata.SwiftMT.message_type"), Some(&j(r#""103""#)));
    assert_eq!(at(&message, "temp_data.original_msg_type"), Some(&j(r#""pacs.008.001.08""#)));
}

#[test]
fn removals_take_out_entries_and_items() {
    let compiler = LogicCompiler::new();
    let mut message = Message::builder()
        .data(j(r#"{"a": {"b": {"c": 1, "d": 2}}, "items": [1, 2, 3], "top": 1, "7": "hashed"}"#))
        .build();
    let mut mappings: Vec<String> = ["data.a.b.c", "data.items.1", "data.top", "data.#7", "data.not.there"]
        .iter()
        .map(|p| format!(r#"{{"path": "{p}", "unset": true}}"#))
        .collect();
    mappings.push(r#"{"path": "data.a.b.d", "logic": {"var": "data.nope"}, "on_null": "unset"}"#.to_string());
    let refs: Vec<&str> = mappings.iter().map(|s| s.as_str()).collect();
    let config = config(&compiler, &refs);
    let (status, changes) = config.execute(&mut message, compiler.engine()).unwrap();
    assert_eq!(status, 200);
    assert_eq!(*message.data(), j(r#"{"a": {"b": {}}, "items": [1, 3]}"#));
    assert_eq!(changes.len(), 5, "the absent path records nothing");
    assert!(changes.iter().all(|c| c.new_value == Json::Null));
}

#[test]
fn a_failing_mapping_fails_the_run_and_the_others_still_run() {
    let compiler = LogicCompiler::new();
    let mut message = Message::builder().data(j(r#"{"n": 1}"#)).build();
    let mut config = config(
        &compiler,
        &[
            r#"{"path": "data.x", "logic": {"var": "data.n"}}"#,
            r#"{"path": "data.y", "logic": 2}"#,
        ],
    );
    config.mappings[0].compiled_logic = None;
    let (status, _) = config.execute(&mut message, compiler.engine()).unwrap();
    assert_eq!(status, 500);
    assert_eq!(at(&message, "data.x"), None);
    assert_eq!(at(&message, "data.y"), Some(&j("2")));
}

#[test]
fn a_write_to_a_root_merges_and_a_deep_write_creates_objects() {
    let compiler = LogicCompiler::new();
    let mut message = Message::builder().data(j(r#"{"keep": 1}"#)).build();
    let config = config(
        &compiler,
        &[
            r#"{"path": "data", "logic": {"added": true}}"#,
            r#"{"path": "temp_data.a.b.c", "logic": "deep"}"#,
            r#"{"path": "data.list", "logic": [1, 2]}"#,
            r#"{"path": "data.list.0", "logic": 9}"#,
        ],
    );
    let (status, _) = config.execute(&mut message, compiler.engine()).unwrap();
    assert_eq!(status, 200);
    assert_eq!(at(&message, "data.keep"), Some(&j("1")));
    assert_eq!(at(&message, "data.added"), Some(&j("true")));
    assert_eq!(at(&message, "data.list"), Some(&j("[9, 2]")));
    assert_eq!(at(&message, "temp_data.a.b.c"), Some(&j(r#""deep""#)));
}

#[test]
fn overwriting_a_root_with_a_scalar_replaces_it() {
    let compiler = LogicCompiler::new();
    let mut message = Message::builder().data(j(r#"{"keep": 1}"#)).build();
    let config = config(&compiler, &[r#"{"path": "data", "logic": 5}"#]);
    let (outcome, changes) = config.execute(&mut message, compiler.engine()).unwrap();
    assert_eq!(outcome, 200);
    assert_eq!(changes.len(), 1);
    assert_eq!(*message.data(), j("5"));
}

#[test]
fn each_change_records_what_was_there_and_what_was_written() {
    let compiler = LogicCompiler::new();
    let mut message = Message::builder().data(j(r#"{"x": 1, "gone": "old"}"#)).build();
    let config = config(
        &compiler,
        &[
            r#"{"path": "data.x", "logic": 2}"#,
            r#"{"path": "data.y", "logic": 3}"#,
            r#"{"path": "data.gone", "unset": true}"#,
        ],
    );
    let (_, changes) = config.execute(&mut message, compiler.engine()).unwrap();
    assert_eq!(changes.len(), 3);
    assert_eq!((changes[0].path.as_str(), &changes[0].old_value, &changes[0].new_value), ("data.x", &j("1"), &j("2")));
    assert_eq!((changes[1].path.as_str(), &changes[1].old_value, &changes[1].new_value), ("data.y", &Json::Null, &j("3")));
    assert_eq!((changes[2].path.as_str(), &changes[2].old_value, &changes[2].new_value), ("data.gone", &j(r#""old""#), &Json::Null));
}

#[test]
fn no_change_is_recorded_when_capture_is_off() {
    let compiler = LogicCompiler::new();
    let mut message = Message::builder().data(j("{}")).capture_changes(false).build();
    let config = config(&compiler, &[r#"{"path": "data.x", "logic": 2}"#]);
    let (status, changes) = config.execute(&mut message, compiler.engine()).unwrap();
    assert_eq!(status, 200);
    assert!(changes.is_empty());
    assert_eq!(at(&message, "data.x"), Some(&j("2")));
}
