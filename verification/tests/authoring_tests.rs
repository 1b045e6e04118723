use dataflow_rs::authoring::{IssueCode, LoadOutcome, WorkflowIssue, check_shape, validate_authored};
use dataflow_rs::config::Registry;
use dataflow_rs::error::DataflowError;
use dataflow_rs::expressions::{Sink, for_each_expression};
use dataflow_rs::json::{Json, Number};
use dataflow_rs::order::{names_in_order, str_le};
use dataflow_rs::registry_check::{InputVerdict, check_against_registry};
use dataflow_rs::secret_check::{check_secrets, collect_secret_refs};
use dataflow_rs::secrets::Secrets;
use dataflow_rs::template_keys::{check_template_keys, refusing_template_key_issues};

fn to_json(v: &serde_json::Value) -> Json {
    match v {
        serde_json::Value::Null => Json::Null,
        serde_json::Value::Bool(b) => Json::Bool(*b),
        serde_json::Value::Number(n) => {
            if let Some(i) = n.as_i64() {
                Json::Num(Number::Int(i))
            } else if let Some(u) = n.as_u64() {
                Json::Num(Number::UInt(u))
            } else {
                Json::Num(Number::Float(n.to_string()))
            }
        }
        serde_json::Value::String(s) => Json::Str(s.clone()),
        serde_json::Value::Array(a) => Json::Array(a.iter().map(to_json).collect()),
        serde_json::Value::Object(m) => {
            Json::Object(m.iter().map(|(k, v)| (k.clone(), to_json(v))).collect())
        }
    }
}

fn j(text: &str) -> Json {
    to_json(&serde_json::from_str(text).unwrap())
}

fn codes(issues: &[WorkflowIssue]) -> Vec<IssueCode> {
    issues.iter().map(|i| i.code).collect()
}

fn secrets() -> Secrets {
    Secrets::new(j(r#"{"api_token": "t", "partner": {"hmac": "h"}}"#)).unwrap()
}

#[test]
fn a_clean_workflow_has_no_shape_issues() {
    let wf = j(r#"{"id": "w", "name": "W", "tasks": [
        {"id": "t", "name": "T", "function": {"name": "map", "input": {"mappings": []}}}]}"#);
    assert!(check_shape(&wf).is_empty());
}

#[test]
fn every_shape_violation_is_reported_with_its_coordinate() {
    let wf = j(r#"{"id": "", "tasks": [
        {"id": "a", "function": {"name": "map", "input": {}}},
        {"id": "a", "terminal": "yes", "function": {"name": ""}},
        {"id": "g", "tasks": []}],
        "loop": {"increment": 0, "max": 1, "init": 2, "counter": "a..b"}}"#);
    let issues = check_shape(&wf);
    let found = codes(&issues);
    for expected in [
        IssueCode::EmptyWorkflowId,
        IssueCode::EmptyWorkflowName,
        IssueCode::DuplicateStepId,
        IssueCode::InvalidTerminal,
        IssueCode::InvalidFunctionName,
        IssueCode::EmptyGroup,
        IssueCode::LoopIncrementTooSmall,
        IssueCode::LoopBoundEmpty,
        IssueCode::LoopCounterInvalid,
    ] {
        assert!(found.contains(&expected), "{expected:?} missing from {found:?}");
    }
    let dup = issues.iter().find(|i| i.code == IssueCode::DuplicateStepId).unwrap();
    assert_eq!(dup.path.as_deref(), Some("tasks[1].id"));
    assert_eq!(dup.task_id.as_deref(), Some("a"));
    assert!(dup.to_string().ends_with("[DUPLICATE_STEP_ID]"));
}

#[test]
fn expressions_are_visited_with_their_fields_and_sinks() {
    // A step without a condition is visited with the `true` it defaults to.
    let wf = j(r#"{"id": "w", "name": "w", "condition": true, "tasks": [
        {"id": "g", "condition": {"var": "x"}, "tasks": [
            {"id": "m", "function": {"name": "map", "input": {"mappings": [
                {"path": "data.a", "logic": 1}]}}}]},
        {"id": "h", "function": {"name": "http_call", "input": {
            "connector": "c", "headers": {"b": "2", "a": "1"}, "output": "data.r"}}},
        {"id": "c", "function": {"name": "shout", "input": {"x": 1}}}]}"#);
    let seen: Vec<(String, Option<&str>, Sink)> = for_each_expression(&wf)
        .into_iter()
        .map(|e| (e.field, e.task_id, e.sink))
        .collect();
    assert_eq!(
        seen,
        vec![
            ("condition".to_string(), None, Sink::Bool),
            ("condition".to_string(), Some("g"), Sink::Bool),
            ("condition".to_string(), Some("m"), Sink::Bool),
            ("function.input.mappings[0].logic".to_string(), Some("m"), Sink::Message),
            ("function.input.mappings[0].path".to_string(), Some("m"), Sink::Message),
            ("condition".to_string(), Some("h"), Sink::Bool),
            ("function.input.connector".to_string(), Some("h"), Sink::Handler),
            ("function.input.headers.a".to_string(), Some("h"), Sink::Handler),
            ("function.input.headers.b".to_string(), Some("h"), Sink::Handler),
            ("function.input.response_path".to_string(), Some("h"), Sink::Handler),
            ("condition".to_string(), Some("c"), Sink::Bool),
            ("function.input".to_string(), Some("c"), Sink::Input),
        ]
    );
}

#[test]
fn a_recorded_expression_may_not_read_a_secret() {
    let wf = j(r#"{"id": "w", "name": "w", "tasks": [
        {"id": "m", "function": {"name": "map", "input": {"mappings": [
            {"path": "data.a", "logic": {"secret": "api_token"}}]}}}]}"#);
    let issues = check_secrets(&wf, &secrets());
    assert_eq!(codes(&issues), vec![IssueCode::SecretInMessageWrite]);
    assert_eq!(issues[0].path.as_deref(), Some("function.input.mappings[0].logic"));
    assert_eq!(issues[0].task_id.as_deref(), Some("m"));
}

#[test]
fn an_undeclared_secret_is_reported_at_the_field_or_at_the_reference() {
    let wf = j(r#"{"id": "w", "name": "w", "tasks": [
        {"id": "h", "function": {"name": "http_call", "input": {
            "connector": "c", "headers": {"auth": {"secret": "nope"}, "ok": {"secret": ["partner.hmac"]}}}}},
        {"id": "c", "function": {"name": "shout", "input": {"cfg": {"key": {"secret": "missing"}}}}}]}"#);
    let issues = check_secrets(&wf, &secrets());
    assert_eq!(codes(&issues), vec![IssueCode::UnknownSecret, IssueCode::UnknownSecret]);
    assert_eq!(issues[0].path.as_deref(), Some("function.input.headers.auth"));
    assert_eq!(issues[0].message, "secret 'nope' is not declared on the engine");
    assert_eq!(issues[1].path.as_deref(), Some("function.input.cfg.key"));
}

#[test]
fn a_dynamic_secret_name_is_only_refused_where_the_result_is_recorded() {
    let dynamic = j(r#"{"secret": {"var": "data.k"}}"#);
    let mut refs = Vec::new();
    collect_secret_refs(&dynamic, "x", &mut refs);
    assert_eq!(refs, vec![("x".to_string(), None)]);
    let wf = j(r#"{"id": "w", "name": "w", "tasks": [
        {"id": "f", "function": {"name": "filter", "input": {"condition": {"secret": {"var": "data.k"}}}}}]}"#);
    assert!(check_secrets(&wf, &secrets()).is_empty());
}

#[test]
fn escaped_and_colliding_template_keys_are_found() {
    let wf = j(r#"{"id": "w", "name": "w", "tasks": [
        {"id": "m", "function": {"name": "map", "input": {"mappings": [
            {"path": "data.a", "logic": {"$x": 1, "x": 2, "y": [{"$$z": 0}]}}]}}}]}"#);
    let issues = check_template_keys(&wf);
    assert_eq!(
        codes(&issues),
        vec![
            IssueCode::EscapedTemplateKey,
            IssueCode::DuplicateTemplateKey,
            IssueCode::EscapedTemplateKey,
        ]
    );
    assert_eq!(issues[0].path.as_deref(), Some("function.input.mappings[0].logic.$x"));
    assert_eq!(issues[1].path.as_deref(), Some("function.input.mappings[0].logic.x"));
    assert!(issues[1].message.starts_with("'$x' and 'x' both emit the key 'x'"));
    assert_eq!(issues[2].path.as_deref(), Some("function.input.mappings[0].logic.y[0].$$z"));
    let fatal = refusing_template_key_issues(&wf);
    assert_eq!(codes(&fatal), vec![IssueCode::DuplicateTemplateKey]);
}

#[test]
fn a_custom_input_is_not_searched_for_template_keys() {
    let wf = j(r#"{"id": "w", "name": "w", "tasks": [
        {"id": "c", "function": {"name": "shout", "input": {"$a": 1, "a": 2}}}]}"#);
    assert!(check_template_keys(&wf).is_empty());
}

#[test]
fn the_registry_check_explains_every_undispatchable_task() {
    let wf = j(r#"{"id": "w", "name": "w", "tasks": [
        {"id": "h", "function": {"name": "http_call", "input": {"connector": "c"}}},
        {"id": "u", "function": {"name": "typo", "input": {}}},
        {"id": "s", "function": {"name": "shout", "input": {}}},
        {"id": "v", "function": {"name": "validation", "input": {"rules": []}}}]}"#);
    let mut reg = Registry::new();
    reg.insert("shout");
    let verdicts = vec![
        InputVerdict::Accepted,
        InputVerdict::Accepted,
        InputVerdict::ParseFailed(DataflowError::Validation("bad".to_string())),
    ];
    let issues = check_against_registry(&wf, &reg, &Secrets::empty(), &verdicts);
    assert_eq!(
        codes(&issues),
        vec![IssueCode::MissingHandler, IssueCode::UnknownFunction, IssueCode::InputParse]
    );
    assert_eq!(issues[0].path.as_deref(), Some("function.name"));
    assert!(issues[1].message.contains("no handler is registered for 'typo'"));
    assert_eq!(
        issues[2].message,
        "input does not match the handler's Input type: Validation error: bad"
    );
}

#[test]
fn map_field_names_are_visited_in_name_order() {
    let entries = match j(r#"{"b": 1, "a": 2, "ab": 3, "B": 4}"#) {
        Json::Object(e) => e,
        _ => unreachable!(),
    };
    let names: Vec<&str> = names_in_order(&entries).iter().map(|s| s.as_str()).collect();
    assert_eq!(names, vec!["B", "a", "ab", "b"]);
    assert!(str_le("a", "ab") && str_le("ab", "b") && !str_le("b", "a") && str_le("", ""));
}

#[test]
fn sinks_answer_what_they_record() {
    assert!(Sink::Message.records());
    assert!(!Sink::Bool.records() && !Sink::Handler.records() && !Sink::Input.records());
    assert!(Sink::Input.points_at_reference());
    assert!(!Sink::Handler.points_at_reference());
}

#[test]
fn validate_authored_points_at_the_coordinate_the_author_typed() {
    let broken = j(r#"{
        "id": "w", "name": "w", "priority": 0,
        "tasks": [
            {"id": "dup", "name": "a", "function": {"name": "map", "input": {"mappings": []}}},
            {"id": "dup", "name": "b", "function": {"name": "map", "input": {"mappings": []}}}
        ]
    }"#);
    let issues = validate_authored(&broken, &LoadOutcome::Loaded);
    assert_eq!(issues[0].code, IssueCode::DuplicateStepId);
    assert_eq!(issues[0].path.as_deref(), Some("tasks[1].id"));
    assert_eq!(issues[0].task_id.as_deref(), Some("dup"));
}

#[test]
fn validate_authored_reports_every_problem() {
    let issues = validate_authored(
        &j(r#"{"id": "", "name": "w", "tasks": [{"id": "t", "name": "t"}]}"#),
        &LoadOutcome::ParseFailed("missing field `function`".to_string()),
    );
    let codes = codes(&issues);
    assert!(codes.contains(&IssueCode::EmptyWorkflowId));
    assert!(codes.contains(&IssueCode::MissingFunction));
    assert!(!codes.contains(&IssueCode::ParseFailed), "rule findings come first and alone");
}

fn clean() -> Json {
    j(r#"{"id": "w", "name": "w", "tasks": [
        {"id": "t", "name": "t", "function": {"name": "map", "input": {"mappings": []}}}
    ]}"#)
}

#[test]
fn a_clean_document_that_loads_has_no_issues() {
    assert!(validate_authored(&clean(), &LoadOutcome::Loaded).is_empty());
}

#[test]
fn a_clean_document_that_fails_to_load_has_one_issue() {
    let issues = validate_authored(&clean(), &LoadOutcome::ParseFailed("bad priority".to_string()));
    assert_eq!(codes(&issues), vec![IssueCode::ParseFailed]);
    assert_eq!(issues[0].message, "bad priority");
    assert_eq!(issues[0].path, None);
    assert_eq!(issues[0].task_id, None);

    let issues =
        validate_authored(&clean(), &LoadOutcome::ValidateFailed("loop never runs".to_string()));
    assert_eq!(codes(&issues), vec![IssueCode::ValidateFailed]);
    assert_eq!(issues[0].message, "loop never runs");
}

#[test]
fn issue_codes_are_distinct_uppercase_names() {
    let all = [
        IssueCode::EmptyWorkflowId, IssueCode::EmptyWorkflowName, IssueCode::NoTasks, IssueCode::MissingStepId,
        IssueCode::DuplicateStepId, IssueCode::EmptyGroup, IssueCode::GroupTooDeep, IssueCode::MissingFunction,
        IssueCode::InvalidFunctionName, IssueCode::InvalidTerminal, IssueCode::LoopIncrementTooSmall,
        IssueCode::LoopBoundEmpty, IssueCode::LoopCounterInvalid, IssueCode::UnknownFunction,
        IssueCode::MissingHandler, IssueCode::InputParse, IssueCode::TemplateCompile, IssueCode::UnknownSecret,
        IssueCode::SecretInMessageWrite, IssueCode::InvalidSecretStore, IssueCode::DuplicateTemplateKey,
        IssueCode::EscapedTemplateKey, IssueCode::ParseFailed, IssueCode::ValidateFailed,
    ];
    for (i, a) in all.iter().enumerate() {
        assert!(!a.as_str().is_empty());
        assert!(a.as_str().chars().all(|c| c.is_ascii_uppercase() || c == '_'));
        for b in &all[i + 1..] {
            assert_ne!(a.as_str(), b.as_str());
        }
    }
    assert_eq!(IssueCode::DuplicateStepId.as_str(), "DUPLICATE_STEP_ID");
    assert_eq!(IssueCode::ParseFailed.as_str(), "PARSE_FAILED");
}
