use dataflow_rs::operators::{OperatorFamilies, builtin_operator_names};
use std::collections::HashSet;

#[test]
fn no_name_is_listed_twice() {
    for families in [OperatorFamilies::none(), OperatorFamilies::all()] {
        let mut seen = HashSet::new();
        for name in builtin_operator_names(&families) {
            assert!(seen.insert(name), "'{name}' appears in more than one family");
        }
    }
}

#[test]
fn the_core_family_is_never_gated_away() {
    for families in [OperatorFamilies::none(), OperatorFamilies::all()] {
        let names: HashSet<&str> = builtin_operator_names(&families).into_iter().collect();
        for expected in ["var", "if", "==", "map", "missing"] {
            assert!(names.contains(expected), "'{expected}' is core");
        }
    }
}

#[test]
fn family_names_track_their_feature() {
    let on = OperatorFamilies::all();
    let names: HashSet<&str> = builtin_operator_names(&on).into_iter().collect();
    assert!(names.contains("length"), "ext-string is on, so `length` is live");
    assert!(names.contains("now"));
    assert!(names.contains("switch"));

    let off = OperatorFamilies::none();
    let names: HashSet<&str> = builtin_operator_names(&off).into_iter().collect();
    assert!(
        !names.contains("length"),
        "ext-string is off, so `length` is inert data and must not be listed"
    );
    assert!(!names.contains("now"));
    assert!(!names.contains("switch"));
}

#[test]
fn one_family_adds_exactly_its_names() {
    let core = builtin_operator_names(&OperatorFamilies::none());
    let mut math = OperatorFamilies::none();
    math.ext_math = true;
    let with_math = builtin_operator_names(&math);
    assert_eq!(core.len(), 35);
    assert_eq!(with_math.len(), core.len() + 3);
    assert_eq!(&with_math[35..], &["abs", "ceil", "floor"]);
    assert_eq!(builtin_operator_names(&OperatorFamilies::all()).len(), 65);
}
