use dataflow_rs::log::{LogLevel, Rendered, log_line};

fn text(t: &str) -> Rendered {
    Rendered::Text(t.to_string())
}

#[test]
fn a_message_without_fields_is_the_whole_line() {
    assert_eq!(log_line(&text("order accepted"), &Vec::new()), "order accepted");
}

#[test]
fn fields_follow_in_brackets_in_order() {
    let fields = vec![
        ("id".to_string(), text("42")),
        ("total".to_string(), text("9.5")),
    ];
    assert_eq!(log_line(&text("order"), &fields), "order [id=42, total=9.5]");
}

#[test]
fn failures_and_uncompiled_expressions_have_placeholders() {
    let fields = vec![
        ("a".to_string(), Rendered::Failed),
        ("b".to_string(), Rendered::Uncompiled),
    ];
    assert_eq!(
        log_line(&Rendered::Uncompiled, &fields),
        "<uncompiled message> [a=<eval error>, b=<uncompiled>]"
    );
    assert_eq!(log_line(&Rendered::Failed, &Vec::new()), "<eval error>");
}

#[test]
fn the_default_level_is_info() {
    assert_eq!(LogLevel::default(), LogLevel::Info);
}
