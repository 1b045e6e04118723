use dataflow_rs::compiler::LogicCompiler;
use dataflow_rs::error::DataflowError;
use dataflow_rs::json::{Json, Number};
use dataflow_rs::logic::Evaluated;
use dataflow_rs::message::Message;
use dataflow_rs::template::Template;

fn to_json(v: &serde_json::Value) -> Json {
    match v {
        serde_json::Value::Null => Json::Null,
        serde_json::Value::Bool(b) => Json::Bool(*b),
        serde_json::Value::Number(n) => {
            if let Some(i) = n.as_i64() {
                Json::Num(Number::Int(i))
            } else if let Some(u) = n.as_u64() {
                Json::Num(Number::UInt(u))
            } else {
                Json::Num(Number::Float(n.to_string()))
            }
        }
        serde_json::Value::String(s) => Json::Str(s.clone()),
        serde_json::Value::Array(a) => Json::Array(a.iter().map(to_json).collect()),
        serde_json::Value::Object(m) => {
            Json::Object(m.iter().map(|(k, v)| (k.clone(), to_json(v))).collect())
        }
    }
}

fn j(text: &str) -> Json {
    to_json(&serde_json::from_str(text).unwrap())
}


fn compiled(text: &str, compiler: &LogicCompiler) -> Template {
    let mut t = Template::new(j(text));
    t.compile(compiler, "lbl").unwrap();
    t
}

#[test]
fn deserializes_from_every_json_shape_and_as_json_is_verbatim() {
    for text in [r#"{"a": 1}"#, "[1, 2, 3]", r#""hello""#, "42", "true", "null", "{}"] {
        let t = Template::new(j(text));
        assert_eq!(*t.as_json(), j(text));
        assert!(!t.is_compiled());
    }
}

#[test]
fn eval_before_compile_errors_without_panicking() {
    let compiler = LogicCompiler::new();
    let m = Message::new(j("{}"));
    let t = Template::new(j(r#"{"var": "data.x"}"#));
    match t.eval(compiler.engine(), m.context()) {
        Err(DataflowError::LogicEvaluation(msg)) => {
            assert!(msg.contains("compile"), "message should name the cause: {msg}");
        }
        other => panic!("expected LogicEvaluation, got {other:?}"),
    }
}

#[test]
fn a_literal_template_evaluates_to_that_literal() {
    let compiler = LogicCompiler::new();
    let m = Message::new(j("{}"));
    for (text, plain) in [
        (r#""hello""#, "hello"),
        ("42", "42"),
        ("{}", "{}"),
        (r#"{"a": 1, "b": 2}"#, r#"{"a":1,"b":2}"#),
    ] {
        let t = compiled(text, &compiler);
        assert_eq!(t.eval_to_plain_string(compiler.engine(), m.context()).unwrap(), plain);
    }
}

#[test]
fn an_operator_named_key_evaluates() {
    let compiler = LogicCompiler::new();
    let m = Message::new(j("{}"));
    let op = compiled(r#"{"cat": ["a", "b"]}"#, &compiler);
    assert!(matches!(op.eval(compiler.engine(), m.context()), Ok(Evaluated::Text(s)) if s == "ab"));
}

#[test]
fn the_static_spelling_of_every_parameter_folds_to_a_constant() {
    let compiler = LogicCompiler::new();
    for text in [r#""data.output""#, "30000", "true", r#"["a", "b"]"#, r#"{"cat": ["a", "b"]}"#] {
        let t = compiled(text, &compiler);
        assert!(t.is_constant(), "{text} should fold to a constant");
    }
    for text in [r#"{"var": "data.x"}"#, r#"{"cat": [{"var": "data.x"}]}"#] {
        let t = compiled(text, &compiler);
        assert!(!t.is_constant(), "{text} must not fold");
        assert_eq!(t.constant_string(), None);
    }
}

#[test]
fn constant_and_evaluated_plain_strings_agree() {
    let compiler = LogicCompiler::new();
    let m = Message::new(j("{}"));
    for text in [r#""abc""#, "7", "true", "null", r#"["a", 1]"#] {
        let t = compiled(text, &compiler);
        assert!(t.is_constant(), "{text} should fold");
        assert_eq!(
            t.resolve_string(compiler.engine(), m.context()).unwrap(),
            t.eval_to_plain_string(compiler.engine(), m.context()).unwrap(),
            "cached and evaluated coercion disagree for {text}"
        );
    }
}

#[test]
fn a_folded_constant_reads_as_plain_text() {
    let compiler = LogicCompiler::new();
    assert_eq!(compiled(r#""abc""#, &compiler).constant_string(), Some("abc".to_string()));
    assert_eq!(compiled("7", &compiler).constant_string(), Some("7".to_string()));
    assert_eq!(compiled(r#"{"cat": ["a", "b"]}"#, &compiler).constant_string(), Some("ab".to_string()));
    assert_eq!(Template::new(j(r#""abc""#)).constant_string(), None);
}

#[test]
fn eval_to_plain_string_unquotes_and_coerces_non_strings() {
    let compiler = LogicCompiler::new();
    let m = Message::new(j("{}"));
    let string_t = compiled(r#""abc""#, &compiler);
    assert_eq!(string_t.eval_to_plain_string(compiler.engine(), m.context()).unwrap(), "abc");
    let num_t = compiled("7", &compiler);
    assert_eq!(num_t.eval_to_plain_string(compiler.engine(), m.context()).unwrap(), "7");
    let obj_t = compiled(r#"{"a": 1}"#, &compiler);
    assert_eq!(obj_t.eval_to_plain_string(compiler.engine(), m.context()).unwrap(), "{\"a\":1}");
}

#[test]
fn eval_to_plain_string_before_compile_errors_without_panicking() {
    let compiler = LogicCompiler::new();
    let m = Message::new(j("{}"));
    let t = Template::new(j(r#""abc""#));
    match t.eval_to_plain_string(compiler.engine(), m.context()) {
        Err(DataflowError::LogicEvaluation(msg)) => {
            assert!(msg.contains("compile"), "message should name the cause: {msg}");
        }
        other => panic!("expected LogicEvaluation, got {other:?}"),
    }
}

#[test]
fn an_uncompiled_scalar_resolves_to_itself_and_an_expression_does_not() {
    let compiler = LogicCompiler::new();
    let m = Message::new(j("{}"));
    let t = Template::new(j(r#""abc""#));
    assert_eq!(t.resolve_string(compiler.engine(), m.context()).unwrap(), "abc");
    let n = Template::new(j("-3"));
    assert_eq!(n.resolve_string(compiler.engine(), m.context()).unwrap(), "-3");
    let e = Template::new(j(r#"{"var": "data.x"}"#));
    assert!(matches!(
        e.resolve_string(compiler.engine(), m.context()),
        Err(DataflowError::LogicEvaluation(msg)) if msg.contains("eval_to_plain_string")
    ));
}

#[test]
fn non_ascii_result_round_trips() {
    let compiler = LogicCompiler::new();
    let m = Message::new(j("{}"));
    let t = compiled(r#"{"cat": ["über-", "größe"]}"#, &compiler);
    assert_eq!(t.eval_to_plain_string(compiler.engine(), m.context()).unwrap(), "über-größe");
}

#[test]
fn reading_an_absent_path_matches_the_engines_missing_path_result() {
    let compiler = LogicCompiler::new();
    let m = Message::new(j("{}"));
    let t = compiled(r#"{"var": "data.nope"}"#, &compiler);
    assert!(matches!(t.eval(compiler.engine(), m.context()), Ok(Evaluated::Other(s)) if s == "null"));
}

#[test]
fn a_dynamic_template_reads_the_message() {
    let compiler = LogicCompiler::new();
    let m = Message::builder().data(j(r#"{"name": "Ada"}"#)).build();
    let t = compiled(r#"{"cat": ["hello ", {"var": "data.name"}]}"#, &compiler);
    assert!(!t.is_constant());
    assert_eq!(t.resolve_string(compiler.engine(), m.context()).unwrap(), "hello Ada");
}
