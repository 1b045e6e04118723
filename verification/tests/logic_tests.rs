use dataflow_rs::compiler::LogicCompiler;
use dataflow_rs::filter::{
    FILTER_STATUS_HALT, FILTER_STATUS_PASS, FILTER_STATUS_SKIP, FilterConfig, RejectAction, filter_outcome_status,
};
use dataflow_rs::json::{Json, Number};
use dataflow_rs::log::{LogConfig, LogLevel, Rendered, rendered_from};
use dataflow_rs::validation::{RuleOutcome, rule_outcome};
use dataflow_rs::template::Template;
use dataflow_rs::logic::{Evaluated, condition_holds, evaluate_condition};
use dataflow_rs::message::Message;

fn to_json(v: &serde_json::Value) -> Json {
    match v {
        serde_json::Value::Null => Json::Null,
        serde_json::Value::Bool(b) => Json::Bool(*b),
        serde_json::Value::Number(n) => {
            if let Some(i) = n.as_i64() {
                Json::Num(Number::Int(i))
            } else if let Some(u) = n.as_u64() {
                Json::Num(Number::UInt(u))
            } else {
                Json::Num(Number::Float(n.to_string()))
            }
        }
        serde_json::Value::String(s) => Json::Str(s.clone()),
        serde_json::Value::Array(a) => Json::Array(a.iter().map(to_json).collect()),
        serde_json::Value::Object(m) => {
            Json::Object(m.iter().map(|(k, v)| (k.clone(), to_json(v))).collect())
        }
    }
}

fn j(text: &str) -> Json {
    to_json(&serde_json::from_str(text).unwrap())
}

fn message(data: &str) -> Message {
    Message::builder().data(j(data)).build()
}

#[test]
fn an_expression_sees_the_context_it_is_evaluated_against() {
    let compiler = LogicCompiler::new();
    let mut t = Template::new(j(r#"{"var": "data.k.1.n"}"#));
    t.compile(&compiler, "t").unwrap();
    let ctx = j(r#"{"data": {"k": ["\t", {"n": 12345678901}], "e": {}}}"#);
    let v = t.eval(compiler.engine(), &ctx).unwrap();
    assert!(matches!(v, Evaluated::Other(ref s) if s == "12345678901"));
}

#[test]
fn a_literal_true_condition_compiles_to_nothing_and_always_holds() {
    let compiler = LogicCompiler::new();
    let compiled = compiler.compile_condition(&Json::Bool(true), "c").unwrap();
    assert!(compiled.is_none());
    assert!(evaluate_condition(compiler.engine(), compiled.as_ref(), &j("{}")));
}

#[test]
fn a_condition_holds_only_when_it_evaluates_to_true() {
    let compiler = LogicCompiler::new();
    let compiled = compiler
        .compile_condition(&j(r#"{"==": [{"var": "data.x"}, 1]}"#), "c")
        .unwrap();
    assert!(compiled.is_some());
    let hit = Message::builder().data(j(r#"{"x": 1}"#)).build();
    let miss = Message::builder().data(j(r#"{"x": 2}"#)).build();
    assert!(evaluate_condition(compiler.engine(), compiled.as_ref(), hit.context()));
    assert!(!evaluate_condition(compiler.engine(), compiled.as_ref(), miss.context()));
    // `1` is truthy but not `true`.
    let one = compiler.compile_condition(&j("1"), "c").unwrap();
    assert!(!evaluate_condition(compiler.engine(), one.as_ref(), hit.context()));
}

#[test]
fn templating_keeps_an_object_whose_key_names_no_operator() {
    let compiler = LogicCompiler::new();
    let logic = compiler.compile(&j(r#"{"user": {"var": "data.name"}}"#), "t").unwrap();
    let m = message(r#"{"name": "Ada"}"#);
    match compiler.engine().evaluate(&logic, m.context()) {
        Ok(Evaluated::Other(text)) => assert_eq!(text, r#"{"user":"Ada"}"#),
        other => panic!("expected an object, got {other:?}"),
    }
}

fn filter(condition: &str, on_reject: RejectAction) -> (LogicCompiler, FilterConfig) {
    let compiler = LogicCompiler::new();
    let mut config = FilterConfig { condition: j(condition), on_reject, compiled_condition: None };
    compiler.compile_filter_logic(&mut config, "t", "w").unwrap();
    (compiler, config)
}

#[test]
fn a_filter_passes_halts_or_skips() {
    let (compiler, halt) = filter(r#"{">": [{"var": "data.total"}, 100]}"#, RejectAction::Halt);
    let mut big = message(r#"{"total": 150}"#);
    let mut small = message(r#"{"total": 50}"#);
    assert_eq!(halt.execute(&mut big, compiler.engine()).unwrap().0, FILTER_STATUS_PASS);
    assert_eq!(halt.execute(&mut small, compiler.engine()).unwrap().0, FILTER_STATUS_HALT);
    let (compiler, skip) = filter(r#"{">": [{"var": "data.total"}, 100]}"#, RejectAction::Skip);
    assert_eq!(skip.execute(&mut small, compiler.engine()).unwrap().0, FILTER_STATUS_SKIP);
    assert!(skip.execute(&mut small, compiler.engine()).unwrap().1.is_empty());
}

#[test]
fn an_uncompiled_filter_condition_is_not_met() {
    let compiler = LogicCompiler::new();
    let config = FilterConfig { condition: j("true"), on_reject: RejectAction::Skip, compiled_condition: None };
    let mut m = message("{}");
    assert_eq!(config.execute(&mut m, compiler.engine()).unwrap().0, FILTER_STATUS_SKIP);
}

#[test]
fn a_log_line_renders_the_message_and_fields() {
    let compiler = LogicCompiler::new();
    let mut config = LogConfig {
        level: LogLevel::Info,
        message: j(r#"{"cat": ["order ", {"var": "data.id"}]}"#),
        fields: vec![
            ("total".to_string(), j(r#"{"var": "data.total"}"#)),
            ("note".to_string(), j(r#""literal""#)),
        ],
        compiled_message: None,
        compiled_fields: Vec::new(),
    };
    compiler.compile_log_logic(&mut config, "t", "w").unwrap();
    let m = message(r#"{"id": 42, "total": 9.5}"#);
    assert_eq!(config.execute(&m, compiler.engine()), "order 42 [total=9.5, note=literal]");
}

#[test]
fn an_uncompiled_log_task_prints_placeholders() {
    let compiler = LogicCompiler::new();
    let config = LogConfig {
        level: LogLevel::Warn,
        message: j(r#""hi""#),
        fields: Vec::new(),
        compiled_message: None,
        compiled_fields: vec![("k".to_string(), None)],
    };
    assert_eq!(config.execute(&message("{}"), compiler.engine()), "<uncompiled message> [k=<uncompiled>]");
}

#[test]
fn only_an_exact_true_outcome_holds() {
    assert!(condition_holds(&Ok(Evaluated::Bool(true))));
    assert!(!condition_holds(&Ok(Evaluated::Bool(false))));
    assert!(!condition_holds(&Ok(Evaluated::Text("true".to_string()))));
    assert!(!condition_holds(&Ok(Evaluated::Other("1".to_string()))));
    assert!(!condition_holds(&Err("boom".to_string())));
}

#[test]
fn a_filter_passes_exactly_when_its_condition_evaluated_true() {
    assert_eq!(filter_outcome_status(&Ok(Evaluated::Bool(true)), RejectAction::Halt), FILTER_STATUS_PASS);
    assert_eq!(filter_outcome_status(&Ok(Evaluated::Bool(false)), RejectAction::Halt), FILTER_STATUS_HALT);
    assert_eq!(filter_outcome_status(&Ok(Evaluated::Text("true".to_string())), RejectAction::Skip), FILTER_STATUS_SKIP);
    assert_eq!(filter_outcome_status(&Err("boom".to_string()), RejectAction::Skip), FILTER_STATUS_SKIP);
}

#[test]
fn a_rule_passes_exactly_when_its_logic_evaluated_true() {
    assert!(matches!(
        rule_outcome(Ok(Evaluated::Bool(true)), None),
        RuleOutcome::Evaluated { passed: true, message: None }
    ));
    assert!(matches!(
        rule_outcome(Ok(Evaluated::Other("1".to_string())), Some("too small".to_string())),
        RuleOutcome::Evaluated { passed: false, message: Some(m) } if m == "too small"
    ));
    assert!(matches!(
        rule_outcome(Err("bad".to_string()), None),
        RuleOutcome::EvaluationFailed(e) if e == "bad"
    ));
}

#[test]
fn an_evaluated_part_renders_as_its_plain_text_or_fails() {
    assert!(matches!(rendered_from(Ok(Evaluated::Text("hi".to_string()))), Rendered::Text(t) if t == "hi"));
    assert!(matches!(rendered_from(Ok(Evaluated::Other("[1]".to_string()))), Rendered::Text(t) if t == "[1]"));
    assert!(matches!(rendered_from(Ok(Evaluated::Bool(false))), Rendered::Text(t) if t == "false"));
    assert!(matches!(rendered_from(Err("x".to_string())), Rendered::Failed));
}

#[test]
fn a_compiled_template_folds_exactly_what_reads_nothing() {
    let compiler = LogicCompiler::new();
    let mut t = Template::new(j(r#"{"+": [1, 2]}"#));
    t.compile(&compiler, "sum").unwrap();
    assert_eq!(t.constant_string(), Some("3".to_string()));
}

#[test]
fn a_var_expression_reads_the_context_it_is_given() {
    let compiler = LogicCompiler::new();
    let ctx = j(r#"{"data": {"user": {"name": "Ada"}, "items": [10, 20, 30], "flag": true}}"#);
    let name = compiler.compile(&j(r#"{"var": "data.user.name"}"#), "l").unwrap();
    assert_eq!(compiler.engine().evaluate_json(&name, &ctx).unwrap(), j(r#""Ada""#));
    let item = compiler.compile(&j(r#"{"var": "data.items.1"}"#), "l").unwrap();
    assert_eq!(compiler.engine().evaluate_json(&item, &ctx).unwrap(), j("20"));
    let missing = compiler.compile(&j(r#"{"var": "data.nope.deeper"}"#), "l").unwrap();
    assert_eq!(compiler.engine().evaluate_json(&missing, &ctx).unwrap(), Json::Null);
    let flag = compiler.compile(&j(r#"{"var": "data.flag"}"#), "l").unwrap();
    assert!(matches!(compiler.engine().evaluate(&flag, &ctx).unwrap(), Evaluated::Bool(true)));
}

#[test]
fn a_var_expression_reads_the_last_of_repeated_keys() {
    let compiler = LogicCompiler::new();
    let ctx = Json::Object(vec![(
        "data".to_string(),
        Json::Object(vec![
            ("k".to_string(), Json::Str("first".to_string())),
            ("k".to_string(), Json::Str("last".to_string())),
        ]),
    )]);
    let k = compiler.compile(&j(r#"{"var": "data.k"}"#), "l").unwrap();
    assert_eq!(compiler.engine().evaluate_json(&k, &ctx).unwrap(), Json::Str("last".to_string()));
}

#[test]
fn a_literal_condition_holds_exactly_when_it_is_true() {
    let compiler = LogicCompiler::new();
    let ctx = j("{}");
    let f = compiler.compile(&j("false"), "c").unwrap();
    assert!(!evaluate_condition(compiler.engine(), Some(&f), &ctx));
    let s = compiler.compile(&j(r#""true""#), "c").unwrap();
    assert!(!evaluate_condition(compiler.engine(), Some(&s), &ctx));
    let t = compiler.compile(&j("true"), "c").unwrap();
    assert!(evaluate_condition(compiler.engine(), Some(&t), &ctx));
}

#[test]
fn a_literal_false_filter_rejects() {
    let compiler = LogicCompiler::new();
    let mut config = FilterConfig { condition: j("false"), on_reject: RejectAction::Skip, compiled_condition: None };
    compiler.compile_filter_logic(&mut config, "t", "w").unwrap();
    let mut m = message("{}");
    assert_eq!(config.execute(&mut m, compiler.engine()).unwrap().0, FILTER_STATUS_SKIP);
}

#[test]
fn a_literal_log_field_renders_as_its_text() {
    let compiler = LogicCompiler::new();
    let mut config = LogConfig {
        level: LogLevel::Info,
        message: j("42"),
        fields: vec![("k".to_string(), j(r#""v""#))],
        compiled_message: None,
        compiled_fields: Vec::new(),
    };
    compiler.compile_log_logic(&mut config, "t", "w").unwrap();
    assert_eq!(config.execute(&message("{}"), compiler.engine()), "42 [k=v]");
}
