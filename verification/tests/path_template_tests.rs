use dataflow_rs::compiler::LogicCompiler;
use dataflow_rs::json::{Json, Number};
use dataflow_rs::message::Message;
use dataflow_rs::path_template::{ContextRoot, DataRoot, PathRoot, PathTemplate};
use dataflow_rs::paths::{compute_data_path, compute_path_parts};

fn to_json(v: &serde_json::Value) -> Json {
    match v {
        serde_json::Value::Null => Json::Null,
        serde_json::Value::Bool(b) => Json::Bool(*b),
        serde_json::Value::Number(n) => {
            if let Some(i) = n.as_i64() {
                Json::Num(Number::Int(i))
            } else if let Some(u) = n.as_u64() {
                Json::Num(Number::UInt(u))
            } else {
                Json::Num(Number::Float(n.to_string()))
            }
        }
        serde_json::Value::String(s) => Json::Str(s.clone()),
        serde_json::Value::Array(a) => Json::Array(a.iter().map(to_json).collect()),
        serde_json::Value::Object(m) => {
            Json::Object(m.iter().map(|(k, v)| (k.clone(), to_json(v))).collect())
        }
    }
}

fn j(text: &str) -> Json {
    to_json(&serde_json::from_str(text).unwrap())
}

fn path(text: &str) -> Json {
    Json::Str(text.to_string())
}

#[test]
fn a_static_context_path_is_precomputed_and_split_as_before() {
    let compiler = LogicCompiler::new();
    let mut p: PathTemplate<ContextRoot> = PathTemplate::new(path("data.user.name"));
    p.compile(&compiler, "lbl").unwrap();

    assert!(p.is_constant(), "a literal path must fold to a constant");
    assert_eq!(p.constant_path(), Some("data.user.name"));

    let m = Message::new(j("{}"));
    let (dotted, parts) = p.resolve(compiler.engine(), m.context()).unwrap();
    assert_eq!(dotted, "data.user.name");
    assert_eq!(parts, ["data", "user", "name"]);
}

#[test]
fn a_static_data_rooted_target_gains_the_data_prefix() {
    let compiler = LogicCompiler::new();
    let mut p: PathTemplate<DataRoot> = PathTemplate::new(path("orders"));
    p.compile(&compiler, "lbl").unwrap();

    assert_eq!(p.constant_path(), Some("data.orders"));
    let (dotted, parts) = compute_data_path("orders");
    assert_eq!(p.constant_path(), Some(dotted.as_str()));
    assert_eq!(parts, ["data", "orders"]);
}

#[test]
fn a_dynamic_path_resolves_against_the_message() {
    let compiler = LogicCompiler::new();
    let mut p: PathTemplate<ContextRoot> =
        PathTemplate::new(j(r#"{"cat": ["data.accounts.", {"var": "data.id"}, ".balance"]}"#));
    p.compile(&compiler, "lbl").unwrap();

    assert!(!p.is_constant());
    assert_eq!(p.constant_path(), None, "a dynamic path names no one place");

    let m = Message::builder().data(j(r#"{"id": "ACC7"}"#)).build();
    let (dotted, parts) = p.resolve(compiler.engine(), m.context()).unwrap();
    assert_eq!(dotted, "data.accounts.ACC7.balance");
    assert_eq!(parts, ["data", "accounts", "ACC7", "balance"]);
}

#[test]
fn an_uncompiled_literal_still_resolves_for_directly_built_configs() {
    let compiler = LogicCompiler::new();
    let p: PathTemplate<ContextRoot> = PathTemplate::new(path("temp_data.x"));
    let m = Message::new(j("{}"));

    let (dotted, parts) = p.resolve(compiler.engine(), m.context()).unwrap();
    assert_eq!(dotted, "temp_data.x");
    assert_eq!(parts, ["temp_data", "x"]);
}

#[test]
fn a_hash_prefixed_segment_survives_the_split() {
    let compiler = LogicCompiler::new();
    let mut p: PathTemplate<ContextRoot> = PathTemplate::new(path("data.rows.#20.total"));
    p.compile(&compiler, "lbl").unwrap();

    let m = Message::new(j("{}"));
    let (_, parts) = p.resolve(compiler.engine(), m.context()).unwrap();
    assert_eq!(parts, ["data", "rows", "#20", "total"]);
}

#[test]
fn compute_path_parts_is_the_shared_split_for_data_rooting() {
    let (_, parts) = DataRoot::compute("a.b");
    assert_eq!(parts, compute_path_parts("data", "a.b"));
}

#[test]
fn a_context_rooted_path_keeps_its_root_and_its_hash_prefixes() {
    let (dotted, parts) = ContextRoot::compute("data.rows.#20.total");
    assert_eq!(dotted, "data.rows.#20.total");
    assert_eq!(parts, vec!["data", "rows", "#20", "total"]);
}

#[test]
fn an_uncompiled_expression_does_not_resolve() {
    let compiler = LogicCompiler::new();
    let p: PathTemplate<DataRoot> = PathTemplate::new(j(r#"{"var": "data.target"}"#));
    let m = Message::new(j("{}"));
    assert!(p.resolve(compiler.engine(), m.context()).is_err());
    assert_eq!(*p.as_json(), j(r#"{"var": "data.target"}"#));
}

#[test]
fn an_uncompiled_number_resolves_to_its_text() {
    let compiler = LogicCompiler::new();
    let p: PathTemplate<DataRoot> = PathTemplate::new(j("7"));
    let m = Message::new(j("{}"));
    let (dotted, parts) = p.resolve(compiler.engine(), m.context()).unwrap();
    assert_eq!(dotted, "data.7");
    assert_eq!(parts, ["data", "7"]);
}
