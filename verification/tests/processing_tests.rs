use dataflow_rs::compiler::label;
use dataflow_rs::filter::{RejectAction, filter_status};
use dataflow_rs::map::{AuthoredMapping, OnNull, is_context_root};
use dataflow_rs::config::Registry;
use dataflow_rs::error::DataflowError;
use dataflow_rs::json::{Json, Number};
use dataflow_rs::processing::{function_not_found_error, set_processing_metadata};

fn to_json(v: &serde_json::Value) -> Json {
    match v {
        serde_json::Value::Null => Json::Null,
        serde_json::Value::Bool(b) => Json::Bool(*b),
        serde_json::Value::Number(n) => {
            if let Some(i) = n.as_i64() {
                Json::Num(Number::Int(i))
            } else if let Some(u) = n.as_u64() {
                Json::Num(Number::UInt(u))
            } else {
                Json::Num(Number::Float(n.to_string()))
            }
        }
        serde_json::Value::String(s) => Json::Str(s.clone()),
        serde_json::Value::Array(a) => Json::Array(a.iter().map(to_json).collect()),
        serde_json::Value::Object(m) => {
            Json::Object(m.iter().map(|(k, v)| (k.clone(), to_json(v))).collect())
        }
    }
}

fn j(text: &str) -> Json {
    to_json(&serde_json::from_str(text).unwrap())
}

#[test]
fn the_stamp_is_set_in_one_pass_over_metadata() {
    let mut ctx = j(r#"{"data": {}, "metadata": {"source": "api", "processed_at": "old"}, "temp_data": {}}"#);
    set_processing_metadata(&mut ctx, &j(r#""1.2.3""#), "2024-01-01T00:00:00Z", Some("orders"));
    let metadata = match &ctx {
        Json::Object(top) => &top[1].1,
        _ => unreachable!(),
    };
    assert_eq!(
        *metadata,
        Json::Object(vec![
            ("processed_at".to_string(), Json::Str("2024-01-01T00:00:00Z".to_string())),
            ("source".to_string(), Json::Str("api".to_string())),
            ("engine_version".to_string(), Json::Str("1.2.3".to_string())),
            ("channel".to_string(), Json::Str("orders".to_string())),
        ])
    );
}

#[test]
fn a_missing_metadata_is_created_and_degenerate_shapes_are_left_alone() {
    let mut ctx = j(r#"{"data": {}}"#);
    set_processing_metadata(&mut ctx, &j("7"), "now", None);
    assert_eq!(
        ctx,
        Json::Object(vec![
            ("data".to_string(), j("{}")),
            (
                "metadata".to_string(),
                Json::Object(vec![
                    ("processed_at".to_string(), Json::Str("now".to_string())),
                    ("engine_version".to_string(), j("7")),
                ])
            ),
        ])
    );
    let mut scalar = j(r#""not an object""#);
    set_processing_metadata(&mut scalar, &j("7"), "now", None);
    assert_eq!(scalar, j(r#""not an object""#));
    let mut odd = j(r#"{"metadata": [1]}"#);
    set_processing_metadata(&mut odd, &j("7"), "now", Some("c"));
    assert_eq!(odd, j(r#"{"metadata": [1]}"#));
}

#[test]
fn an_unknown_function_lists_the_registered_handlers_in_name_order() {
    let mut reg = Registry::new();
    reg.insert("zeta");
    reg.insert("alpha");
    match function_not_found_error("nope", &reg) {
        DataflowError::FunctionNotFound(m) => assert_eq!(
            m,
            "nope (registered handlers: alpha, zeta; built-ins: map, validation, validate, parse_json, parse_xml, publish_json, publish_xml, filter, log, http_call, enrich, publish_kafka)"
        ),
        other => panic!("{other:?}"),
    }
    match function_not_found_error("x", &Registry::new()) {
        DataflowError::FunctionNotFound(m) => {
            assert!(m.starts_with("x (registered handlers: none; built-ins: map, "), "{m}")
        }
        other => panic!("{other:?}"),
    }
}

#[test]
fn compile_labels_name_the_task_and_workflow() {
    assert_eq!(label("condition", "t1", "w1"), "condition for task t1 in workflow w1");
}

#[test]
fn filter_status_follows_the_condition_and_the_reject_action() {
    assert_eq!(filter_status(Some(&Json::Bool(true)), RejectAction::Halt), 200);
    assert_eq!(filter_status(Some(&j("1")), RejectAction::Halt), 299);
    assert_eq!(filter_status(None, RejectAction::Skip), 298);
    assert_eq!(RejectAction::default(), RejectAction::Halt);
}

#[test]
fn mapping_rules_refuse_their_shapes() {
    let m = |path: &str, logic: Option<&str>, unset: bool, on_null: Option<OnNull>| AuthoredMapping {
        path: Json::Str(path.to_string()),
        logic: logic.map(j),
        unset,
        on_null,
    };
    assert_eq!(m("data.x", None, false, None).problem().unwrap().field, "logic");
    assert_eq!(m("data.x", Some("1"), true, None).problem().unwrap().field, "unset");
    assert_eq!(m("data.x", None, true, Some(OnNull::Skip)).problem().unwrap().field, "on_null");
    assert_eq!(m("data", None, true, None).problem().unwrap().field, "path");
    assert_eq!(m("#temp_data", Some("null"), false, Some(OnNull::Unset)).problem().unwrap().field, "path");
    assert!(m("data", Some("1"), false, None).problem().is_none(), "a root may be written");
    assert!(m("data.x", None, true, None).problem().is_none());
    assert!(is_context_root(&vec!["metadata".to_string()]));
    assert!(!is_context_root(&vec!["data".to_string(), "x".to_string()]));
    assert_eq!(OnNull::default(), OnNull::Skip);
}
