use dataflow_rs::config::ConnectorName;
use dataflow_rs::json::Json;
use dataflow_rs::config::{
    BUILTIN_FUNCTION_NAMES, BuiltinKind, Registry, builtin_aliases, builtin_function_kind,
    can_dispatch_in, canonical_builtin_name, dispatchable_functions_in, is_builtin_function,
};

fn registry(names: &[&str]) -> Registry {
    let mut r = Registry::new();
    for n in names {
        r.insert(n);
    }
    r
}

fn names(registry: &Registry) -> Vec<String> {
    let mut out: Vec<String> = dispatchable_functions_in(registry)
        .iter()
        .map(|f| f.name.to_string())
        .collect();
    out.sort_unstable();
    out
}

#[test]
fn builtin_function_kind_is_none_for_non_builtins() {
    for name in [
        "",
        "__not_a_builtin__",
        "HTTP_CALL",
        "htttp_call",
        "map ",
        "publish_kafk",
    ] {
        assert_eq!(
            builtin_function_kind(name),
            None,
            "'{name}' must not classify as a built-in"
        );
        assert!(!is_builtin_function(name));
    }
}

#[test]
fn requires_handler_kind_covers_exactly_the_config_only_integrations() {
    for name in ["http_call", "enrich", "publish_kafka"] {
        assert_eq!(
            builtin_function_kind(name),
            Some(BuiltinKind::RequiresHandler),
            "'{name}' ships as config only and needs a registered handler"
        );
    }
    for name in [
        "map",
        "validation",
        "validate",
        "parse_json",
        "parse_xml",
        "publish_json",
        "publish_xml",
        "filter",
        "log",
    ] {
        assert_eq!(
            builtin_function_kind(name),
            Some(BuiltinKind::SelfContained),
            "'{name}' is executed by this crate"
        );
    }
}

#[test]
fn aliases_and_canonical_names_agree() {
    for name in BUILTIN_FUNCTION_NAMES {
        let canonical = canonical_builtin_name(name);
        assert_eq!(
            canonical_builtin_name(canonical),
            canonical,
            "'{name}' resolves to '{canonical}', which must itself be canonical"
        );
        assert!(
            BUILTIN_FUNCTION_NAMES.contains(&canonical),
            "'{canonical}' is a canonical name and must be an accepted spelling"
        );
        assert_eq!(
            builtin_function_kind(name),
            builtin_function_kind(canonical),
            "'{name}' and '{canonical}' are one function and must classify alike"
        );
    }
    for name in BUILTIN_FUNCTION_NAMES {
        let is_canonical = canonical_builtin_name(name) == name;
        let alias_of: Vec<&str> = BUILTIN_FUNCTION_NAMES
            .iter()
            .copied()
            .filter(|c| builtin_aliases(c).contains(&name))
            .collect();
        assert_eq!(
            is_canonical,
            alias_of.is_empty(),
            "'{name}' must be canonical XOR an alias, got canonical={is_canonical} \
             listed-as-alias-of={alias_of:?}"
        );
        assert!(
            alias_of.len() <= 1,
            "'{name}' is listed as an alias of more than one function: {alias_of:?}"
        );
    }
    for canonical in BUILTIN_FUNCTION_NAMES {
        for alias in builtin_aliases(canonical) {
            assert_eq!(
                canonical_builtin_name(alias),
                canonical,
                "'{alias}' is listed under '{canonical}' but does not resolve to it"
            );
        }
    }
}

#[test]
fn validate_is_canonical_and_validation_is_its_alias() {
    assert_eq!(canonical_builtin_name("validation"), "validate");
    assert_eq!(canonical_builtin_name("validate"), "validate");
    assert_eq!(builtin_aliases("validate"), &["validation"]);
    assert!(builtin_aliases("validation").is_empty());
    assert!(builtin_aliases("map").is_empty());
}

#[test]
fn an_empty_registry_dispatches_every_self_contained_builtin() {
    assert_eq!(
        names(&registry(&[])),
        vec![
            "filter",
            "log",
            "map",
            "parse_json",
            "parse_xml",
            "publish_json",
            "publish_xml",
            "validate",
        ],
        "self-contained built-ins need no registration; `validation` is \
         folded into `validate`, and the three config-only integrations are absent"
    );
}

#[test]
fn requires_handler_builtins_appear_only_when_registered() {
    let empty = registry(&[]);
    assert!(!names(&empty).contains(&"enrich".to_string()));
    assert!(!can_dispatch_in(&empty, "enrich"));

    let backed = registry(&["enrich"]);
    assert!(names(&backed).contains(&"enrich".to_string()));
    assert!(can_dispatch_in(&backed, "enrich"));

    let all = dispatchable_functions_in(&backed);
    let entry = all
        .iter()
        .find(|f| f.name == "enrich")
        .expect("registered enrich is enumerated");
    assert_eq!(entry.kind, Some(BuiltinKind::RequiresHandler));
}

#[test]
fn custom_names_are_enumerated_with_no_kind() {
    let reg = registry(&["shout"]);
    let all = dispatchable_functions_in(&reg);
    let entry = all
        .iter()
        .find(|f| f.name == "shout")
        .expect("a registered custom name is enumerated");
    assert_eq!(entry.kind, None, "None is how a custom handler reports");
    assert!(entry.aliases.is_empty());
    assert!(can_dispatch_in(&reg, "shout"));
    assert!(!can_dispatch_in(&registry(&[]), "shout"));
}

#[test]
fn registering_a_self_contained_name_is_inert_and_never_duplicates_it() {
    let shadowed = registry(&["map"]);
    assert_eq!(
        names(&shadowed),
        names(&registry(&[])),
        "a shadowing registration changes nothing about the vocabulary"
    );
    assert_eq!(
        dispatchable_functions_in(&shadowed)
            .iter()
            .filter(|f| f.name == "map")
            .count(),
        1,
        "`map` is yielded exactly once, not once per source"
    );
}

#[test]
fn aliases_dispatch_but_are_not_enumerated() {
    let reg = registry(&[]);
    assert!(
        can_dispatch_in(&reg, "validation"),
        "a task named `validation` really does execute"
    );
    assert!(
        !names(&reg).contains(&"validation".to_string()),
        "but the enumeration reports it under `validate`"
    );
}

#[test]
fn can_dispatch_rejects_names_the_crate_does_not_know() {
    let reg = registry(&["shout"]);
    assert!(!can_dispatch_in(&reg, "SHOUT"), "matching is exact");
    assert!(!can_dispatch_in(&reg, "htttp_call"));
    assert!(!can_dispatch_in(&reg, ""));
}

#[test]
fn every_enumerated_name_is_dispatchable() {
    let reg = registry(&["enrich", "shout"]);
    for f in dispatchable_functions_in(&reg) {
        assert!(
            can_dispatch_in(&reg, f.name),
            "'{}' is enumerated, so it must dispatch",
            f.name
        );
        for alias in f.aliases {
            assert!(
                can_dispatch_in(&reg, alias),
                "alias '{alias}' of '{}' must dispatch too",
                f.name
            );
        }
    }
}

#[test]
fn registering_a_name_twice_keeps_it_once() {
    let mut reg = Registry::new();
    reg.insert("shout");
    reg.insert("shout");
    assert_eq!(reg.keys().len(), 1);
    assert!(reg.contains_key("shout"));
    assert!(!reg.contains_key("whisper"));
}

#[test]
fn custom_names_follow_the_builtins_in_registry_order() {
    let reg = registry(&["zeta", "http_call", "alpha"]);
    let all = dispatchable_functions_in(&reg);
    let order: Vec<&str> = all.iter().map(|f| f.name).collect();
    assert_eq!(
        order,
        vec![
            "map",
            "validate",
            "parse_json",
            "parse_xml",
            "publish_json",
            "publish_xml",
            "filter",
            "log",
            "http_call",
            "zeta",
            "alpha",
        ]
    );
    assert_eq!(all[1].aliases, vec!["validation"]);
}

fn string(text: &str) -> Json {
    Json::Str(text.to_string())
}

#[test]
fn a_literal_connector_is_static() {
    let authored = string("payments");
    let name = ConnectorName::of(&authored);
    assert_eq!(name, ConnectorName::Static("payments"));
    assert_eq!(name.as_static(), Some("payments"));
}

#[test]
fn an_expression_connector_is_computed() {
    let authored = Json::Object(vec![("var".to_string(), string("data.connector"))]);
    let name = ConnectorName::of(&authored);
    assert_eq!(name, ConnectorName::Computed(&authored));
    assert_eq!(name.as_static(), None);
    let null = Json::Null;
    assert_eq!(ConnectorName::of(&null).as_static(), None);
}

#[test]
fn connector_returns_an_empty_or_non_ascii_name_verbatim() {
    let empty = string("");
    assert_eq!(ConnectorName::of(&empty).as_static(), Some(""));
    let accented = string("café-ü");
    assert_eq!(ConnectorName::of(&accented).as_static(), Some("café-ü"));
}

#[test]
fn every_name_a_registry_dispatches_is_enumerated_or_an_alias() {
    let r = registry(&["my_handler", "enrich", "map"]);
    let listed = dispatchable_functions_in(&r);
    let candidates = [
        "map", "validation", "validate", "parse_json", "parse_xml", "publish_json", "publish_xml",
        "filter", "log", "http_call", "enrich", "publish_kafka", "my_handler", "unknown",
    ];
    for name in candidates {
        let enumerated = listed
            .iter()
            .any(|f| f.name == name || f.aliases.contains(&name));
        assert_eq!(can_dispatch_in(&r, name), enumerated, "{name}");
    }
}
