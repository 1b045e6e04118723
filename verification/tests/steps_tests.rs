use dataflow_rs::json::{Json, Number};
use dataflow_rs::steps::{MAX_GROUP_DEPTH, StepKind, is_group, walk_authored_steps};

fn to_json(v: &serde_json::Value) -> Json {
    match v {
        serde_json::Value::Null => Json::Null,
        serde_json::Value::Bool(b) => Json::Bool(*b),
        serde_json::Value::Number(n) => {
            if let Some(i) = n.as_i64() {
                Json::Num(Number::Int(i))
            } else if let Some(u) = n.as_u64() {
                Json::Num(Number::UInt(u))
            } else {
                Json::Num(Number::Float(n.to_string()))
            }
        }
        serde_json::Value::String(s) => Json::Str(s.clone()),
        serde_json::Value::Array(a) => Json::Array(a.iter().map(to_json).collect()),
        serde_json::Value::Object(m) => {
            Json::Object(m.iter().map(|(k, v)| (k.clone(), to_json(v))).collect())
        }
    }
}

fn j(text: &str) -> Json {
    to_json(&serde_json::from_str(text).unwrap())
}

fn leaf(id: &str) -> String {
    format!(r#"{{"id": "{id}", "name": "{id}", "function": {{"name": "map", "input": {{"mappings": []}}}}}}"#)
}

/// `n` groups nested one inside the next, innermost holding one task.
fn nested_groups(n: usize) -> Json {
    let mut node = leaf("innermost");
    for level in (0..n).rev() {
        node = format!(r#"{{"id": "g{level}", "condition": true, "tasks": [{node}]}}"#);
    }
    j(&format!("[{node}]"))
}

fn kinds(tasks: &Json) -> Vec<(String, StepKind, usize)> {
    walk_authored_steps(tasks)
        .into_iter()
        .map(|s| (s.path, s.kind, s.depth))
        .collect()
}

fn id_of(node: &Json) -> Option<&str> {
    node.get("id").and_then(|v| v.as_str())
}

#[test]
fn paths_are_the_coordinates_the_author_typed() {
    let tasks = j(&format!(
        r#"[{}, {{"id": "g", "condition": true, "tasks": [{}, {}]}}]"#,
        leaf("first"),
        leaf("inner"),
        leaf("second")
    ));
    let paths: Vec<String> = walk_authored_steps(&tasks).into_iter().map(|s| s.path).collect();
    assert_eq!(
        paths,
        vec!["tasks[0]", "tasks[1]", "tasks[1].tasks[0]", "tasks[1].tasks[1]"]
    );
}

#[test]
fn groups_are_yielded_before_their_members() {
    let tasks = j(&format!(r#"[{{"id": "g", "condition": true, "tasks": [{}]}}]"#, leaf("inner")));
    assert_eq!(
        kinds(&tasks),
        vec![
            ("tasks[0]".to_string(), StepKind::Group, 0),
            ("tasks[0].tasks[0]".to_string(), StepKind::Leaf, 1),
        ],
        "pre-order, so filtering to Leaf reproduces parse order"
    );
}

#[test]
fn max_group_depth_is_the_value_the_parser_enforces() {
    let ok = nested_groups(MAX_GROUP_DEPTH);
    assert!(
        walk_authored_steps(&ok).iter().all(|s| s.kind != StepKind::TooDeep),
        "and the walker agrees nothing is too deep"
    );
    let too_deep = nested_groups(MAX_GROUP_DEPTH + 1);
    let steps = walk_authored_steps(&too_deep);
    let flagged: Vec<_> = steps.iter().filter(|s| s.kind == StepKind::TooDeep).collect();
    assert_eq!(flagged.len(), 1, "exactly the one offending group");
    assert_eq!(flagged[0].depth, MAX_GROUP_DEPTH);
    assert_eq!(id_of(flagged[0].node), Some(format!("g{MAX_GROUP_DEPTH}").as_str()));
}

#[test]
fn a_too_deep_group_is_not_descended_into() {
    let tasks = nested_groups(MAX_GROUP_DEPTH + 1);
    let steps = walk_authored_steps(&tasks);
    let deepest = steps.iter().map(|s| s.depth).max().unwrap();
    assert_eq!(
        deepest, MAX_GROUP_DEPTH,
        "the walk stops at the offending group; its members are never yielded"
    );
    assert!(
        !steps.iter().any(|s| id_of(s.node) == Some("innermost")),
        "the leaf below the cap is unreachable, and reported as such by its absent parent"
    );
}

#[test]
fn a_leaf_is_never_too_deep() {
    let tasks = nested_groups(MAX_GROUP_DEPTH);
    let steps = walk_authored_steps(&tasks);
    let innermost = steps
        .iter()
        .find(|s| id_of(s.node) == Some("innermost"))
        .expect("the deepest leaf is yielded");
    assert_eq!(innermost.kind, StepKind::Leaf);
    assert_eq!(innermost.depth, MAX_GROUP_DEPTH);
}

#[test]
fn an_element_with_neither_tasks_nor_function_is_a_leaf() {
    let tasks = j(r#"[{"id": "orphan"}]"#);
    assert_eq!(kinds(&tasks), vec![("tasks[0]".to_string(), StepKind::Leaf, 0)]);
}

#[test]
fn a_tasks_key_that_is_not_an_array_is_still_a_group() {
    let tasks = j(r#"[{"id": "g", "tasks": "oops"}]"#);
    let first = match &tasks {
        Json::Array(items) => &items[0],
        _ => unreachable!(),
    };
    assert!(is_group(first));
    assert_eq!(
        kinds(&tasks),
        vec![("tasks[0]".to_string(), StepKind::Group, 0)],
        "a malformed group with no members, not a task"
    );
}

#[test]
fn an_empty_group_is_yielded_not_an_error() {
    let tasks = j(r#"[{"id": "empty", "condition": true, "tasks": []}]"#);
    assert_eq!(kinds(&tasks), vec![("tasks[0]".to_string(), StepKind::Group, 0)]);
}

#[test]
fn a_non_array_input_yields_nothing() {
    for input in ["null", "{}", r#""tasks""#, "7", r#"{"tasks": []}"#] {
        assert_eq!(
            walk_authored_steps(&j(input)).len(),
            0,
            "not an array, so nothing to walk: {input}"
        );
    }
}

#[test]
fn an_empty_array_yields_nothing_and_leaves_no_frame_behind() {
    assert_eq!(walk_authored_steps(&j("[]")).len(), 0);
    let tasks = j(r#"[{"id": "g", "tasks": [{"id": "inner", "tasks": []}]}]"#);
    assert_eq!(
        kinds(&tasks),
        vec![
            ("tasks[0]".to_string(), StepKind::Group, 0),
            ("tasks[0].tasks[0]".to_string(), StepKind::Group, 1),
        ]
    );
}
