use dataflow_rs::error::ErrorInfo;
use dataflow_rs::json::{Json, Number};
use dataflow_rs::message::{Message, MessageId};
use dataflow_rs::paths::get_nested_value;

fn to_json(v: &serde_json::Value) -> Json {
    match v {
        serde_json::Value::Null => Json::Null,
        serde_json::Value::Bool(b) => Json::Bool(*b),
        serde_json::Value::Number(n) => {
            if let Some(i) = n.as_i64() {
                Json::Num(Number::Int(i))
            } else if let Some(u) = n.as_u64() {
                Json::Num(Number::UInt(u))
            } else {
                Json::Num(Number::Float(n.to_string()))
            }
        }
        serde_json::Value::String(s) => Json::Str(s.clone()),
        serde_json::Value::Array(a) => Json::Array(a.iter().map(to_json).collect()),
        serde_json::Value::Object(m) => {
            Json::Object(m.iter().map(|(k, v)| (k.clone(), to_json(v))).collect())
        }
    }
}

fn j(text: &str) -> Json {
    to_json(&serde_json::from_str(text).unwrap())
}

fn keys(v: &Json) -> Vec<&str> {
    match v {
        Json::Object(entries) => entries.iter().map(|(k, _)| k.as_str()).collect(),
        _ => Vec::new(),
    }
}

#[test]
fn builder_with_no_seed_matches_the_historical_empty_context() {
    let m = Message::builder().build();
    assert_eq!(keys(&m.context), vec!["data", "metadata", "temp_data"]);
    assert_eq!(m.context, j(r#"{"data": {}, "metadata": {}, "temp_data": {}}"#));
}

#[test]
fn each_setter_lands_in_its_own_root_field() {
    let m = Message::builder().data(j(r#"{"d": 1}"#)).build();
    assert_eq!(*m.data(), j(r#"{"d": 1}"#));
    assert_eq!(*m.metadata(), j("{}"));
    assert_eq!(*m.temp_data(), j("{}"));

    let m = Message::builder().metadata(j(r#"{"m": 1}"#)).build();
    assert_eq!(*m.metadata(), j(r#"{"m": 1}"#));
    assert_eq!(*m.data(), j("{}"));

    let m = Message::builder().temp_data(j(r#"{"t": 1}"#)).build();
    assert_eq!(*m.temp_data(), j(r#"{"t": 1}"#));
    assert_eq!(*m.data(), j("{}"));
}

#[test]
fn seeding_records_no_audit_entry_or_change() {
    for capture in [true, false] {
        let m = Message::builder()
            .capture_changes(capture)
            .data(j(r#"{"d": 1}"#))
            .build();
        assert!(m.audit_trail().is_empty(), "seeding is initial state, not a mutation");
        assert_eq!(*m.data(), j(r#"{"d": 1}"#));
        assert_eq!(m.capture_changes(), capture);
    }
}

#[test]
fn calling_a_setter_twice_keeps_the_last_value() {
    let m = Message::builder()
        .data(j(r#"{"first": 1}"#))
        .data(j(r#"{"second": 2}"#))
        .build();
    assert_eq!(*m.data(), j(r#"{"second": 2}"#));
}

#[test]
fn an_empty_object_seed_is_indistinguishable_from_no_seed() {
    let seeded = Message::builder().data(j("{}")).build();
    let bare = Message::builder().build();
    assert_eq!(seeded.context, bare.context);
}

#[test]
fn seed_keys_are_literal_not_paths() {
    let m = Message::builder().metadata(j(r#"{"a.b": 1}"#)).build();
    assert_eq!(*m.metadata(), j(r#"{"a.b": 1}"#));
    assert!(
        get_nested_value(&m.context, "metadata.a.b").is_none(),
        "a dotted key must not become a nested path"
    );
    let m = Message::builder().metadata(j(r##"{"#20": 1}"##)).build();
    assert_eq!(*m.metadata(), j(r##"{"#20": 1}"##));
    let m = Message::builder().data(j(r#"{"0": 1}"#)).build();
    assert!(matches!(m.data(), Json::Object(_)));
    assert_eq!(*m.data(), j(r#"{"0": 1}"#));
}

#[test]
fn non_ascii_keys_and_values_round_trip() {
    let m = Message::builder().data(j(r#"{"régión": "東京"}"#)).build();
    assert_eq!(*m.data(), j(r#"{"régión": "東京"}"#));
}

#[test]
fn nested_seeds_resolve_through_the_path_api() {
    let m = Message::builder().data(j(r#"{"order": {"items": [1, 2]}}"#)).build();
    assert_eq!(get_nested_value(&m.context, "data.order.items.1"), Some(&j("2")));
}

#[test]
fn non_object_seeds_are_ignored_to_preserve_the_context_invariant() {
    for bad in [r#""scalar""#, "[1, 2]", "null", "7"] {
        let m = Message::builder()
            .data(j(bad))
            .metadata(j(bad))
            .temp_data(j(bad))
            .build();
        assert_eq!(
            m.context,
            j(r#"{"data": {}, "metadata": {}, "temp_data": {}}"#),
            "non-object seed {bad} must be ignored"
        );
    }
}

#[test]
fn the_builder_defaults_and_the_routing_bucket_clamp() {
    let m = Message::builder().routing_bucket(7).build();
    assert_eq!(m.routing_bucket(), Some(7));
    assert_eq!(Message::builder().routing_bucket(200).build().routing_bucket(), Some(99));
    let m = Message::builder().build();
    assert_eq!(m.routing_bucket(), None);
    assert!(m.capture_changes());
    assert_eq!(*m.payload(), Json::Null);
    assert_eq!(m.id().len(), 36);
}

#[test]
fn a_supplied_id_is_kept_and_a_generated_one_is_a_uuid() {
    let m = Message::builder().id("corr-1").payload(j("[1]")).build();
    assert_eq!(m.id(), "corr-1");
    assert_eq!(*m.payload(), j("[1]"));
    let generated = Message::new(j("{}"));
    let id = generated.id();
    assert_eq!(id.len(), 36);
    for (i, c) in id.chars().enumerate() {
        if [8, 13, 18, 23].contains(&i) {
            assert_eq!(c, '-');
        } else {
            assert!(c.is_ascii_hexdigit() && !c.is_ascii_uppercase(), "{id}");
        }
    }
    assert!(matches!(MessageId::new_uuid_v7(), MessageId::Uuid(_)));
}

#[test]
fn errors_are_recorded_in_order() {
    let mut m = Message::new(Json::Null);
    assert!(!m.has_errors());
    m.add_error(ErrorInfo::simple_ref("A", "first", None));
    m.add_error(ErrorInfo::simple_ref("B", "second", None));
    assert!(m.has_errors());
    let codes: Vec<&str> = m.errors().iter().map(|e| e.code.as_str()).collect();
    assert_eq!(codes, vec!["A", "B"]);
}
