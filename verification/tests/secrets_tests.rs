use dataflow_rs::json::{Json, Number};
use dataflow_rs::secrets::{SecretError, SecretOperator, Secrets};

fn to_json(v: &serde_json::Value) -> Json {
    match v {
        serde_json::Value::Null => Json::Null,
        serde_json::Value::Bool(b) => Json::Bool(*b),
        serde_json::Value::Number(n) => {
            if let Some(i) = n.as_i64() {
                Json::Num(Number::Int(i))
            } else if let Some(u) = n.as_u64() {
                Json::Num(Number::UInt(u))
            } else {
                Json::Num(Number::Float(n.to_string()))
            }
        }
        serde_json::Value::String(s) => Json::Str(s.clone()),
        serde_json::Value::Array(a) => Json::Array(a.iter().map(to_json).collect()),
        serde_json::Value::Object(m) => {
            Json::Object(m.iter().map(|(k, v)| (k.clone(), to_json(v))).collect())
        }
    }
}

fn j(text: &str) -> Json {
    to_json(&serde_json::from_str(text).unwrap())
}

fn store() -> Secrets {
    Secrets::new(j(r#"{"api_token": "tok-value-9f8e", "partner": {"hmac": "hmac-value-1a2b"}}"#))
        .unwrap()
}

#[test]
fn the_empty_path_is_not_the_whole_store() {
    assert!(store().get("").is_none());
    assert_eq!(store().get("partner.hmac"), Some(&j(r#""hmac-value-1a2b""#)));
    assert!(store().get("partner.nope").is_none());
}

#[test]
fn only_objects_are_accepted() {
    assert!(Secrets::new(j(r#"["a"]"#)).is_err());
    assert!(Secrets::new(j(r#""s""#)).is_err());
    assert_eq!(Secrets::empty().names().len(), 0);
}

#[test]
fn names_are_the_top_level_keys_only() {
    assert_eq!(store().names(), vec!["api_token", "partner"]);
    match Secrets::new(j("7")) {
        Err(e) => assert_eq!(
            e.to_string(),
            "Validation error: secrets must be a JSON object of name -> value"
        ),
        Ok(_) => panic!("a number is not a store"),
    }
}

#[test]
fn debug_prints_names_and_masks_every_value() {
    let rendered = store().debug_text();
    assert_eq!(rendered, r#"Secrets { api_token: "******", partner: "******" }"#);
}

#[test]
fn an_empty_store_prints_its_name_alone() {
    assert_eq!(Secrets::empty().debug_text(), "Secrets");
}

fn op() -> SecretOperator {
    SecretOperator(store())
}

#[test]
fn the_operator_reads_a_declared_key() {
    let operator = op();
    match operator.evaluate(&vec![j(r#""partner.hmac""#)]) {
        Ok(v) => assert_eq!(v, &j(r#""hmac-value-1a2b""#)),
        Err(e) => panic!("expected the secret, got {e:?}"),
    }
}

fn refusal(args: Vec<Json>) -> (bool, String) {
    let operator = op();
    match operator.evaluate(&args) {
        Err(SecretError::InvalidArguments(m)) => (true, m),
        Err(SecretError::VariableNotFound(m)) => (false, m),
        Ok(_) => panic!("expected a refusal"),
    }
}

#[test]
fn the_operator_names_the_key_never_the_value() {
    assert_eq!(refusal(vec![j(r#""nope""#)]), (false, "secret 'nope' is not declared".to_string()));
    assert_eq!(refusal(vec![j(r#""""#)]), (true, "secret: the key must not be empty".to_string()));
    assert_eq!(refusal(vec![j("7")]), (true, "secret: the key must be a string".to_string()));
    assert_eq!(
        refusal(vec![]),
        (true, "secret: takes exactly one argument, got 0".to_string())
    );
    assert_eq!(
        refusal(vec![j(r#""a""#), j(r#""b""#)]),
        (true, "secret: takes exactly one argument, got 2".to_string())
    );
}
