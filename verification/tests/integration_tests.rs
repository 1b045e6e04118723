use dataflow_rs::compiler::LogicCompiler;
use dataflow_rs::integration::{
    DEFAULT_TIMEOUT_MS, EnrichErrorAction, HttpCallConfig, HttpMethod, PublishKafkaConfig, default_method,
};
use dataflow_rs::json::{Json, Number};
use dataflow_rs::logic::Evaluated;
use dataflow_rs::message::Message;
use dataflow_rs::template::Template;

fn to_json(v: &serde_json::Value) -> Json {
    match v {
        serde_json::Value::Null => Json::Null,
        serde_json::Value::Bool(b) => Json::Bool(*b),
        serde_json::Value::Number(n) => {
            if let Some(i) = n.as_i64() {
                Json::Num(Number::Int(i))
            } else if let Some(u) = n.as_u64() {
                Json::Num(Number::UInt(u))
            } else {
                Json::Num(Number::Float(n.to_string()))
            }
        }
        serde_json::Value::String(s) => Json::Str(s.clone()),
        serde_json::Value::Array(a) => Json::Array(a.iter().map(to_json).collect()),
        serde_json::Value::Object(m) => {
            Json::Object(m.iter().map(|(k, v)| (k.clone(), to_json(v))).collect())
        }
    }
}

fn j(text: &str) -> Json {
    to_json(&serde_json::from_str(text).unwrap())
}




#[test]
fn all_covers_every_variant() {
    for m in HttpMethod::ALL {
        match m {
            HttpMethod::Get
            | HttpMethod::Post
            | HttpMethod::Put
            | HttpMethod::Patch
            | HttpMethod::Delete => {}
        }
    }
    assert_eq!(HttpMethod::ALL.len(), 5);
}

#[test]
fn is_idempotent_follows_rfc_9110() {
    assert!(HttpMethod::Get.is_idempotent());
    assert!(HttpMethod::Put.is_idempotent());
    assert!(HttpMethod::Delete.is_idempotent());
    assert!(!HttpMethod::Post.is_idempotent());
    assert!(!HttpMethod::Patch.is_idempotent());
}

#[test]
fn display_matches_as_str() {
    for m in HttpMethod::ALL {
        assert_eq!(m.to_string(), m.as_str());
    }
}

#[test]
fn default_method_is_get() {
    assert_eq!(HttpMethod::default(), HttpMethod::Get);
    assert_eq!(default_method(), HttpMethod::Get);
}

#[test]
fn method_tokens_are_the_uppercase_names() {
    let tokens: Vec<&str> = HttpMethod::ALL.iter().map(|m| m.as_str()).collect();
    assert_eq!(tokens, vec!["GET", "POST", "PUT", "PATCH", "DELETE"]);
}

#[test]
fn enrich_fails_by_default_and_the_timeout_default_is_thirty_seconds() {
    assert_eq!(EnrichErrorAction::default(), EnrichErrorAction::Fail);
    assert_eq!(DEFAULT_TIMEOUT_MS, 30000);
}

fn http_config(compiler: &LogicCompiler, headers: Vec<(&str, &str)>, path: Option<&str>) -> HttpCallConfig {
    let mut cfg = HttpCallConfig {
        connector: Template::new(j(r#""c""#)),
        method: HttpMethod::Get,
        path: path.map(|p| Template::new(j(p))),
        headers: headers.into_iter().map(|(k, v)| (k.to_string(), Template::new(j(v)))).collect(),
        body: None,
        body_format: None,
        response_path: None,
        response_format: None,
        timeout_ms: Template::new(j("30000")),
    };
    cfg.connector.compile(compiler, "connector").unwrap();
    if let Some(p) = cfg.path.as_mut() {
        p.compile(compiler, "path").unwrap();
    }
    for (_, v) in cfg.headers.iter_mut() {
        v.compile(compiler, "header").unwrap();
    }
    cfg
}

fn fresh_message() -> Message {
    Message::builder().data(j(r#"{"id": "abc", "n": 7, "obj": {"a": 1}}"#)).build()
}

#[test]
fn a_static_config_resolves_to_exactly_what_was_authored() {
    let compiler = LogicCompiler::new();
    let m = fresh_message();
    let cfg = http_config(&compiler, vec![("X-Env", r#""prod""#)], Some(r#""/static""#));
    assert_eq!(cfg.resolve_connector(compiler.engine(), m.context()).unwrap(), "c");
    assert_eq!(cfg.resolve_path(compiler.engine(), m.context()).unwrap().as_deref(), Some("/static"));
    assert_eq!(
        cfg.resolve_headers(compiler.engine(), m.context()).unwrap(),
        vec![("X-Env".to_string(), "prod".to_string())]
    );
    assert!(cfg.connector.is_constant(), "a literal connector must fold");
}

#[test]
fn header_values_are_coerced_to_plain_strings() {
    let compiler = LogicCompiler::new();
    let m = fresh_message();
    let cfg = http_config(&compiler, vec![("X-Count", r#"{"var": "data.n"}"#)], None);
    assert_eq!(cfg.resolve_headers(compiler.engine(), m.context()).unwrap()[0].1, "7");
}

#[test]
fn a_failing_header_fails_the_call_rather_than_being_dropped() {
    let compiler = LogicCompiler::new();
    let m = fresh_message();
    let mut cfg = http_config(&compiler, vec![("X-Ok", r#""fine""#)], None);
    cfg.headers.push(("X-Bad".to_string(), Template::new(j(r#"{"var": "data.n"}"#))));
    assert!(cfg.resolve_headers(compiler.engine(), m.context()).is_err());
}

#[test]
fn path_resolution_coerces_non_strings_for_the_url() {
    let compiler = LogicCompiler::new();
    let m = fresh_message();
    let cfg = http_config(&compiler, vec![], Some(r#"{"var": "data.n"}"#));
    assert_eq!(cfg.resolve_path(compiler.engine(), m.context()).unwrap(), Some("7".to_string()));
    let cfg = http_config(&compiler, vec![], Some(r#"{"var": "data.obj"}"#));
    assert_eq!(cfg.resolve_path(compiler.engine(), m.context()).unwrap(), Some("{\"a\":1}".to_string()));
}

#[test]
fn absent_optional_fields_resolve_to_none() {
    let compiler = LogicCompiler::new();
    let m = fresh_message();
    let cfg = http_config(&compiler, vec![], None);
    assert_eq!(cfg.resolve_path(compiler.engine(), m.context()).unwrap(), None);
    assert!(cfg.resolve_body(compiler.engine(), m.context()).unwrap().is_none());
    assert_eq!(cfg.resolve_body_format(compiler.engine(), m.context()).unwrap(), None);
    assert_eq!(cfg.resolve_response_path(compiler.engine(), m.context()).unwrap(), None);
    assert_eq!(cfg.resolve_response_format(compiler.engine(), m.context()).unwrap(), None);
    assert!(cfg.resolve_headers(compiler.engine(), m.context()).unwrap().is_empty());
}

#[test]
fn kafka_resolves_its_own_parameters() {
    let compiler = LogicCompiler::new();
    let m = fresh_message();
    let mut kafka = PublishKafkaConfig {
        connector: Template::new(j(r#""bus""#)),
        topic: Template::new(j(r#"{"cat": ["orders.", {"var": "data.id"}]}"#)),
        key: Some(Template::new(j(r#"{"var": "data.id"}"#))),
        value: Some(Template::new(j(r#"{"var": "data.obj"}"#))),
    };
    assert!(kafka.resolve_topic(compiler.engine(), m.context()).is_err());
    kafka.topic.compile(&compiler, "topic").unwrap();
    kafka.key.as_mut().unwrap().compile(&compiler, "key").unwrap();
    kafka.value.as_mut().unwrap().compile(&compiler, "value").unwrap();
    assert_eq!(kafka.resolve_connector(compiler.engine(), m.context()).unwrap(), "bus");
    assert_eq!(kafka.resolve_topic(compiler.engine(), m.context()).unwrap(), "orders.abc");
    assert_eq!(kafka.resolve_key(compiler.engine(), m.context()).unwrap().as_deref(), Some("abc"));
    assert!(matches!(
        kafka.resolve_value(compiler.engine(), m.context()),
        Ok(Some(Evaluated::Other(t))) if t == "{\"a\":1}"
    ));
}
