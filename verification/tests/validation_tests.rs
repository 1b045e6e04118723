use dataflow_rs::json::{Json, Number};
use dataflow_rs::message::Message;
use dataflow_rs::compiler::LogicCompiler;
use dataflow_rs::template::{Template, literal_string};
use dataflow_rs::validation::{
    RuleOutcome, ValidationConfig, ValidationRule, run_rules,
};

fn to_json(v: &serde_json::Value) -> Json {
    match v {
        serde_json::Value::Null => Json::Null,
        serde_json::Value::Bool(b) => Json::Bool(*b),
        serde_json::Value::Number(n) => {
            if let Some(i) = n.as_i64() {
                Json::Num(Number::Int(i))
            } else if let Some(u) = n.as_u64() {
                Json::Num(Number::UInt(u))
            } else {
                Json::Num(Number::Float(n.to_string()))
            }
        }
        serde_json::Value::String(s) => Json::Str(s.clone()),
        serde_json::Value::Array(a) => Json::Array(a.iter().map(to_json).collect()),
        serde_json::Value::Object(m) => {
            Json::Object(m.iter().map(|(k, v)| (k.clone(), to_json(v))).collect())
        }
    }
}

fn j(text: &str) -> Json {
    to_json(&serde_json::from_str(text).unwrap())
}

#[test]
fn test_validation_config_from_json() {
    let input = j(r#"{"rules": [
        {"logic": {"!!": [{"var": "data.required_field"}]}, "path": "data", "message": "Required field is missing"},
        {"logic": {">": [{"var": "data.age"}, 18]}, "message": "Must be over 18"}]}"#);
    let config = ValidationConfig::from_json(&input).unwrap();
    assert_eq!(config.rules.len(), 2);
    assert_eq!(*config.rules[0].message.as_json(), j(r#""Required field is missing""#));
    assert_eq!(*config.rules[1].message.as_json(), j(r#""Must be over 18""#));
}

#[test]
fn test_validation_config_missing_rules() {
    assert!(ValidationConfig::from_json(&j("{}")).is_err());
}

#[test]
fn test_validation_config_invalid_rules() {
    assert!(ValidationConfig::from_json(&j(r#"{"rules": "not_an_array"}"#)).is_err());
}

#[test]
fn test_validation_config_missing_logic() {
    let input = j(r#"{"rules": [{"path": "data", "message": "Some error"}]}"#);
    assert!(ValidationConfig::from_json(&input).is_err());
}

#[test]
fn test_validation_config_defaults() {
    let config = ValidationConfig::from_json(&j(r#"{"rules": [{"logic": {"var": "data.field"}}]}"#)).unwrap();
    assert_eq!(*config.rules[0].message.as_json(), j(r#""Validation failed""#));
}

#[test]
fn test_validation_uncompiled_logic() {
    let compiler = LogicCompiler::new();
    let mut message = Message::new(j("{}"));
    let config = ValidationConfig {
        rules: vec![ValidationRule { logic: Json::Bool(true), message: Template::new(j(r#""Test""#)), compiled_logic: None }],
    };
    let (status, changes) = config.execute(&mut message, compiler.engine()).unwrap();
    assert!(changes.is_empty());
    assert_eq!(status, 400);
    assert!(!message.errors().is_empty());
    assert!(message.errors()[0].code == "COMPILATION_ERROR");
    assert_eq!(message.errors()[0].message, "Logic not compiled for rule at index: 0");
}

#[test]
fn only_an_exact_true_passes() {
    let mut message = Message::new(Json::Null);
    let status = run_rules(
        &mut message,
        &vec![
            RuleOutcome::Evaluated { passed: true, message: None },
            RuleOutcome::Evaluated { passed: false, message: Some("Must be over 18".to_string()) },
            RuleOutcome::Evaluated { passed: false, message: None },
            RuleOutcome::EvaluationFailed("boom".to_string()),
        ],
    );
    assert_eq!(status, 400);
    let recorded: Vec<(&str, &str)> = message
        .errors()
        .iter()
        .map(|e| (e.code.as_str(), e.message.as_str()))
        .collect();
    assert_eq!(
        recorded,
        vec![
            ("VALIDATION_ERROR", "Must be over 18"),
            ("VALIDATION_ERROR", "Validation failed"),
            ("EVALUATION_ERROR", "Failed to evaluate rule 3: boom"),
        ]
    );
}

#[test]
fn all_rules_passing_records_nothing() {
    let mut message = Message::new(Json::Null);
    let status = run_rules(
        &mut message,
        &vec![RuleOutcome::Evaluated { passed: true, message: None }],
    );
    assert_eq!(status, 200);
    assert!(!message.has_errors());
    assert_eq!(run_rules(&mut message, &vec![]), 200);
}

fn rules() -> ValidationConfig {
    ValidationConfig {
        rules: vec![
            ValidationRule {
                logic: j(r#"{"!!": [{"var": "data.email"}]}"#),
                message: Template::new(j(r#""Email is required""#)),
                compiled_logic: None,
            },
            ValidationRule {
                logic: j(r#"{">": [{"var": "data.age"}, 18]}"#),
                message: Template::new(j(r#""Must be over 18""#)),
                compiled_logic: None,
            },
        ],
    }
}

#[test]
fn test_validation_execute_passes() {
    let compiler = LogicCompiler::new();
    let mut message = Message::builder().data(j(r#"{"email": "test@example.com", "age": 25}"#)).build();
    let mut config = rules();
    compiler.compile_validation_logic(&mut config, "t", "w").unwrap();

    let result = config.execute(&mut message, compiler.engine());
    assert!(result.is_ok());
    let (status, changes) = result.unwrap();
    assert_eq!(status, 200);
    assert!(changes.is_empty());
    assert!(message.errors().is_empty());
}

#[test]
fn test_validation_execute_fails() {
    let compiler = LogicCompiler::new();
    let mut message = Message::builder().data(j(r#"{"age": 15}"#)).build();
    let mut config = rules();
    compiler.compile_validation_logic(&mut config, "t", "w").unwrap();

    let result = config.execute(&mut message, compiler.engine());
    assert!(result.is_ok());
    let (status, _changes) = result.unwrap();
    assert_eq!(status, 400);
    assert_eq!(message.errors().len(), 2);
    let error_messages: Vec<&str> = message.errors().iter().map(|e| e.message.as_str()).collect();
    assert!(error_messages.contains(&"Email is required"));
    assert!(error_messages.contains(&"Must be over 18"));
}

#[test]
fn a_non_literal_message_that_was_never_compiled_falls_back() {
    let compiler = LogicCompiler::new();
    let mut message = Message::builder().data(j(r#"{"age": 15}"#)).build();
    let mut config = ValidationConfig {
        rules: vec![ValidationRule {
            logic: j(r#"{">": [{"var": "data.age"}, 18]}"#),
            message: Template::new(j(r#"{"cat": ["too young: ", {"var": "data.age"}]}"#)),
            compiled_logic: None,
        }],
    };
    compiler.compile_validation_logic(&mut config, "t", "w").unwrap();
    let (status, _) = config.execute(&mut message, compiler.engine()).unwrap();
    assert_eq!(status, 400);
    assert_eq!(message.errors()[0].message, "Validation failed");
}

#[test]
fn literal_messages_render_as_plain_text() {
    assert_eq!(literal_string(&j(r#""Required""#)), Some("Required".to_string()));
    assert_eq!(literal_string(&j("42")), Some("42".to_string()));
    assert_eq!(literal_string(&j("-7")), Some("-7".to_string()));
    assert_eq!(literal_string(&j("true")), Some("true".to_string()));
    assert_eq!(literal_string(&j("null")), None);
    assert_eq!(literal_string(&j(r#"{"var": "x"}"#)), None);
}

#[test]
fn a_rule_that_fails_to_compile_names_its_index_task_and_workflow() {
    let compiler = LogicCompiler::new();
    let mut config = ValidationConfig {
        rules: vec![
            ValidationRule { logic: j("true"), message: Template::new(j(r#""ok""#)), compiled_logic: None },
            ValidationRule {
                logic: j(r#"{"no_such_operator_here": [1]}"#),
                message: Template::new(j(r#""bad""#)),
                compiled_logic: None,
            },
        ],
    };
    match compiler.compile_validation_logic(&mut config, "t1", "w1") {
        Ok(()) => {
            // The engine may accept an unknown key in templating mode, as an
            // object template; then every rule is compiled.
            assert!(config.rules.iter().all(|r| r.compiled_logic.is_some()));
        }
        Err(dataflow_rs::error::DataflowError::LogicEvaluation(m)) => {
            assert!(m.starts_with("validation rule 1 for task t1 in workflow w1: "), "{m}");
        }
        Err(other) => panic!("unexpected error {other:?}"),
    }
}

#[test]
fn a_compiled_message_names_the_value_that_failed() {
    let compiler = LogicCompiler::new();
    let mut message = Message::builder().data(j(r#"{"age": 15}"#)).build();
    let mut config = ValidationConfig {
        rules: vec![ValidationRule {
            logic: j(r#"{">": [{"var": "data.age"}, 18]}"#),
            message: Template::new(j(r#"{"cat": ["too young: ", {"var": "data.age"}]}"#)),
            compiled_logic: None,
        }],
    };
    compiler.compile_validation_logic(&mut config, "t", "w").unwrap();
    config.rules[0].message.compile(&compiler, "message").unwrap();
    let (status, _) = config.execute(&mut message, compiler.engine()).unwrap();
    assert_eq!(status, 400);
    assert_eq!(message.errors()[0].message, "too young: 15");
}
