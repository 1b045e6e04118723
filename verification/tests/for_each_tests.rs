use dataflow_rs::for_each::{ForEach, is_context_path, no_parts, one, overlap, slot_path};
use dataflow_rs::json::{Json, Number};

fn to_json(v: &serde_json::Value) -> Json {
    match v {
        serde_json::Value::Null => Json::Null,
        serde_json::Value::Bool(b) => Json::Bool(*b),
        serde_json::Value::Number(n) => {
            if let Some(i) = n.as_i64() {
                Json::Num(Number::Int(i))
            } else if let Some(u) = n.as_u64() {
                Json::Num(Number::UInt(u))
            } else {
                Json::Num(Number::Float(n.to_string()))
            }
        }
        serde_json::Value::String(s) => Json::Str(s.clone()),
        serde_json::Value::Array(a) => Json::Array(a.iter().map(to_json).collect()),
        serde_json::Value::Object(m) => {
            Json::Object(m.iter().map(|(k, v)| (k.clone(), to_json(v))).collect())
        }
    }
}

fn j(text: &str) -> Json {
    to_json(&serde_json::from_str(text).unwrap())
}

/// A `for_each` as an authored task would carry it: `over` and `as` are
/// required, `max_concurrency` defaults to one.
fn parse_for_each(text: &str) -> Result<ForEach, String> {
    let v: serde_json::Value = serde_json::from_str(text).map_err(|e| e.to_string())?;
    let over = v.get("over").ok_or("missing field `over`")?;
    let item = v
        .get("as")
        .and_then(|a| a.as_str())
        .ok_or("missing field `as`")?;
    Ok(ForEach {
        over: to_json(over),
        item: item.to_string(),
        max_concurrency: v
            .get("max_concurrency")
            .and_then(|m| m.as_u64())
            .map(|m| m as usize)
            .unwrap_or_else(one),
        collect: v.get("collect").and_then(|c| c.as_str()).map(String::from),
        into: v.get("into").and_then(|c| c.as_str()).map(String::from),
        item_parts: no_parts(),
        index_parts: no_parts(),
        collect_parts: no_parts(),
        into_parts: no_parts(),
    })
}

fn task_with(for_each: &str, function: &str) -> Result<ForEach, String> {
    let fe = parse_for_each(for_each)?;
    let f: serde_json::Value = serde_json::from_str(function).map_err(|e| e.to_string())?;
    let name = f["name"].as_str().unwrap_or_default();
    match fe.problem(name) {
        Some(p) => Err(format!("for_each.{}: {}", p.field, p.message)),
        None => Ok(fe),
    }
}

const CUSTOM: &str = r#"{"name": "infer", "input": {}}"#;

#[test]
fn a_for_each_parses_with_its_defaults() {
    let fe = task_with(r#"{"over": {"var": "data.ps"}, "as": "p"}"#, CUSTOM).unwrap();
    assert_eq!(fe.item, "p");
    assert_eq!(fe.max_concurrency, 1, "sequential by default");
    assert!(fe.collect.is_none() && fe.into.is_none());
    assert_eq!(fe.index_slot(), "p_index");
}

#[test]
fn every_rule_refuses_its_shape() {
    for (for_each, needle) in [
        (r#"{"over": "data.ps", "as": "p"}"#, "can never evaluate to an array"),
        (r#"{"over": 3, "as": "p"}"#, "can never evaluate to an array"),
        (r#"{"over": [], "as": "a..b"}"#, "for_each as"),
        (r#"{"over": [], "as": ""}"#, "for_each as"),
        (r#"{"over": [], "as": "p", "max_concurrency": 0}"#, "max_concurrency"),
        (r#"{"over": [], "as": "p", "collect": "temp_data.m"}"#, "collect and into"),
        (r#"{"over": [], "as": "p", "into": "temp_data.ms"}"#, "collect and into"),
        (r#"{"over": [], "as": "p", "collect": "m", "into": "temp_data.ms"}"#, "context path"),
        (r#"{"over": [], "as": "p", "collect": "temp_data.m", "into": "temp_data"}"#, "context path"),
        (r#"{"over": [], "as": "p", "collect": "temp_data.m", "into": "payload.ms"}"#, "context path"),
        (r#"{"over": [], "as": "p", "collect": "temp_data.m", "into": "temp_data.m.x"}"#, "overlap"),
        (r#"{"over": [], "as": "p", "collect": "temp_data.m", "into": "temp_data.p_index"}"#, "overlap"),
        (r#"{"over": [], "as": "p", "collect": "temp_data.m", "into": "temp_data.p"}"#, "overlap"),
        (r#"{"over": [], "as": "p", "collect": "temp_data.p.out", "into": "temp_data.outs"}"#, "for_each collect ("),
        (r#"{"over": [], "as": "p", "collect": "temp_data.p", "into": "temp_data.outs"}"#, "for_each collect ("),
        (r#"{"over": [], "as": "p", "collect": "temp_data.p_index", "into": "temp_data.outs"}"#, "for_each collect ("),
    ] {
        let err = task_with(for_each, CUSTOM).expect_err(for_each);
        assert!(err.contains(needle), "{for_each}: {err}");
    }
    assert!(task_with(r#"{"as": "p"}"#, CUSTOM).is_err(), "over is required");
    assert!(task_with(r#"{"over": []}"#, CUSTOM).is_err(), "as is required");
}

#[test]
fn an_explicit_null_over_is_refused() {
    let err = task_with(r#"{"over": null, "as": "p"}"#, CUSTOM).expect_err("null");
    assert!(err.contains("null"), "{err}");
}

#[test]
fn valid_shapes_are_accepted() {
    for for_each in [
        r#"{"over": [1, 2], "as": "p"}"#,
        r#"{"over": {"var": "data.ps"}, "as": "cur.p", "max_concurrency": 8}"#,
        r#"{"over": [], "as": "p", "collect": "temp_data.m", "into": "data.ms"}"#,
        r#"{"over": [], "as": "p", "collect": "temp_data.p_out", "into": "temp_data.outs"}"#,
    ] {
        assert!(task_with(for_each, CUSTOM).is_ok(), "{for_each}");
    }
}

#[test]
fn a_for_each_on_a_sync_builtin_is_refused() {
    let err = task_with(
        r#"{"over": [], "as": "p"}"#,
        r#"{"name": "map", "input": {"mappings": []}}"#,
    )
    .expect_err("map is a sync built-in");
    assert!(err.contains("handler-backed"), "{err}");
    for (name, input) in [
        ("http_call", r#"{"connector": "c"}"#),
        ("enrich", r#"{"connector": "c", "merge_path": "data.x"}"#),
        ("publish_kafka", r#"{"connector": "c", "topic": "t"}"#),
    ] {
        let function = format!(r#"{{"name": "{name}", "input": {input}}}"#);
        assert!(
            task_with(r#"{"over": [], "as": "p"}"#, &function).is_ok(),
            "{name} is handler-backed"
        );
    }
}

#[test]
fn precompute_paths_splits_every_slot() {
    let mut fe = task_with(
        r#"{"over": [], "as": "p", "collect": "temp_data.m", "into": "data.ms"}"#,
        CUSTOM,
    )
    .unwrap();
    fe.precompute_paths();
    assert_eq!(fe.item_parts, ["temp_data", "p"]);
    assert_eq!(fe.index_parts, ["temp_data", "p_index"]);
    assert_eq!(fe.collect_parts, ["temp_data", "m"]);
    assert_eq!(fe.into_parts, ["data", "ms"]);

    let mut bare = task_with(r#"{"over": [], "as": "p"}"#, CUSTOM).unwrap();
    bare.precompute_paths();
    assert!(bare.collect_parts.is_empty() && bare.into_parts.is_empty());
}

#[test]
fn the_validation_spelling_is_reported_under_its_canonical_name() {
    let err = task_with(r#"{"over": [], "as": "p"}"#, r#"{"name": "validation", "input": {}}"#)
        .expect_err("validation is a sync built-in");
    assert!(err.contains("'validate'"), "{err}");
    assert!(err.starts_with("for_each.: "), "the problem is the for_each as a whole: {err}");
}

#[test]
fn path_helpers() {
    assert!(slot_path("a.b") && !slot_path("") && !slot_path("a.") && !slot_path(".a"));
    assert!(is_context_path("temp_data.m") && is_context_path("data.a.b"));
    assert!(!is_context_path("temp_data") && !is_context_path("payload.x") && !is_context_path("data."));
    assert!(overlap("temp_data.m", "temp_data.m.x") && overlap("a", "a"));
    assert!(!overlap("temp_data.p_out", "temp_data.p"));
}
