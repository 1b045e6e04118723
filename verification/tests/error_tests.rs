use dataflow_rs::error::{DataflowError, ErrorInfo};

#[test]
fn test_retryable_errors() {
    // Test retryable errors
    assert!(
        DataflowError::Http {
            status: 500,
            message: "Internal Server Error".to_string()
        }
        .retryable()
    );
    assert!(
        DataflowError::Http {
            status: 502,
            message: "Bad Gateway".to_string()
        }
        .retryable()
    );
    assert!(
        DataflowError::Http {
            status: 503,
            message: "Service Unavailable".to_string()
        }
        .retryable()
    );
    assert!(
        DataflowError::Http {
            status: 429,
            message: "Too Many Requests".to_string()
        }
        .retryable()
    );
    assert!(
        DataflowError::Http {
            status: 408,
            message: "Request Timeout".to_string()
        }
        .retryable()
    );
    assert!(
        DataflowError::Http {
            status: 0,
            message: "Connection Error".to_string()
        }
        .retryable()
    );
    assert!(DataflowError::Timeout("Connection timeout".to_string()).retryable());
    assert!(DataflowError::Io("Network error".to_string()).retryable());
}

#[test]
fn test_non_retryable_errors() {
    // Test non-retryable errors
    assert!(
        !DataflowError::Http {
            status: 400,
            message: "Bad Request".to_string()
        }
        .retryable()
    );
    assert!(
        !DataflowError::Http {
            status: 401,
            message: "Unauthorized".to_string()
        }
        .retryable()
    );
    assert!(
        !DataflowError::Http {
            status: 403,
            message: "Forbidden".to_string()
        }
        .retryable()
    );
    assert!(
        !DataflowError::Http {
            status: 404,
            message: "Not Found".to_string()
        }
        .retryable()
    );
    assert!(!DataflowError::Validation("Invalid input".to_string()).retryable());
    assert!(!DataflowError::LogicEvaluation("Invalid logic".to_string()).retryable());
    assert!(!DataflowError::Deserialization("Invalid JSON".to_string()).retryable());
    assert!(!DataflowError::Workflow("Invalid workflow".to_string()).retryable());
    assert!(!DataflowError::Unknown("Unknown error".to_string()).retryable());
}

#[test]
fn test_function_execution_error_retryability() {
    // Test that function execution errors inherit retryability from source
    let retryable_source = DataflowError::Http {
        status: 500,
        message: "Server Error".to_string(),
    };
    let non_retryable_source = DataflowError::Validation("Invalid data".to_string());

    let retryable_func_error =
        DataflowError::function_execution("HTTP call failed", Some(retryable_source));
    let non_retryable_func_error =
        DataflowError::function_execution("Validation failed", Some(non_retryable_source));
    let no_source_func_error = DataflowError::function_execution("Unknown failure", None);

    assert!(retryable_func_error.retryable());
    assert!(!non_retryable_func_error.retryable());
    assert!(!no_source_func_error.retryable());
}

#[test]
fn test_error_info_builder() {
    // Test basic builder
    let error = ErrorInfo::builder("TEST_ERROR", "Test message").build();
    assert_eq!(error.code, "TEST_ERROR");
    assert_eq!(error.message, "Test message");
    assert!(error.timestamp.is_some());
    assert!(error.path.is_none());

    // Test full builder
    let error = ErrorInfo::builder("VALIDATION_ERROR", "Field validation failed")
        .path("data.email")
        .workflow_id("workflow_1")
        .task_id("validate_email")
        .retry_attempted(true)
        .retry_count(2)
        .build();

    assert_eq!(error.code, "VALIDATION_ERROR");
    assert_eq!(error.message, "Field validation failed");
    assert_eq!(error.path, Some("data.email".to_string()));
    assert_eq!(error.workflow_id, Some("workflow_1".to_string()));
    assert_eq!(error.task_id, Some("validate_email".to_string()));
    assert_eq!(error.retry_attempted, Some(true));
    assert_eq!(error.retry_count, Some(2));
}

#[test]
fn test_error_info_new_from_dataflow_error() {
    // Test ErrorInfo::new generates correct codes for each error type
    let test_cases = vec![
        (
            DataflowError::Validation("test".to_string()),
            "VALIDATION_ERROR",
        ),
        (
            DataflowError::Workflow("test".to_string()),
            "WORKFLOW_ERROR",
        ),
        (DataflowError::Task("test".to_string()), "TASK_ERROR"),
        (
            DataflowError::FunctionNotFound("test".to_string()),
            "FUNCTION_NOT_FOUND",
        ),
        (
            DataflowError::function_execution("test", None),
            "FUNCTION_ERROR",
        ),
        (
            DataflowError::LogicEvaluation("test".to_string()),
            "LOGIC_ERROR",
        ),
        (DataflowError::http(404, "Not Found"), "HTTP_ERROR"),
        (DataflowError::Timeout("test".to_string()), "TIMEOUT_ERROR"),
        (DataflowError::Io("test".to_string()), "IO_ERROR"),
        (
            DataflowError::Deserialization("test".to_string()),
            "DESERIALIZATION_ERROR",
        ),
        (DataflowError::Unknown("test".to_string()), "UNKNOWN_ERROR"),
    ];

    for (error, expected_code) in test_cases {
        let info = ErrorInfo::new(
            Some("workflow_1".to_string()),
            Some("task_1".to_string()),
            error,
        );
        assert_eq!(info.code, expected_code);
        assert_eq!(info.workflow_id, Some("workflow_1".to_string()));
        assert_eq!(info.task_id, Some("task_1".to_string()));
        assert!(info.timestamp.is_some());
        assert_eq!(info.retry_attempted, Some(false));
        assert_eq!(info.retry_count, Some(0));
    }
}

#[test]
fn test_error_info_simple_constructors() {
    // Test simple constructor
    let error = ErrorInfo::simple(
        "CUSTOM_ERROR".to_string(),
        "Custom message".to_string(),
        Some("data.field".to_string()),
    );
    assert_eq!(error.code, "CUSTOM_ERROR");
    assert_eq!(error.message, "Custom message");
    assert_eq!(error.path, Some("data.field".to_string()));
    assert!(error.workflow_id.is_none());
    assert!(error.task_id.is_none());
    assert!(error.timestamp.is_some());

    // Test simple_ref constructor
    let error = ErrorInfo::simple_ref("REF_ERROR", "Ref message", Some("data.path"));
    assert_eq!(error.code, "REF_ERROR");
    assert_eq!(error.message, "Ref message");
    assert_eq!(error.path, Some("data.path".to_string()));

    // Test simple_ref with None path
    let error = ErrorInfo::simple_ref("NO_PATH", "No path message", None);
    assert!(error.path.is_none());
}

#[test]
fn test_error_info_with_retry() {
    let error = ErrorInfo::simple_ref("TEST", "Test", None);
    assert!(error.retry_attempted.is_none());
    assert!(error.retry_count.is_none());

    let error = error.with_retry();
    assert_eq!(error.retry_attempted, Some(true));
    assert_eq!(error.retry_count, Some(1));

    let error = error.with_retry();
    assert_eq!(error.retry_attempted, Some(true));
    assert_eq!(error.retry_count, Some(2));
}

#[test]
fn test_error_display_messages() {
    // Test that error display messages are correct
    assert_eq!(
        DataflowError::Validation("test".to_string()).to_string(),
        "Validation error: test"
    );
    assert_eq!(
        DataflowError::Workflow("test".to_string()).to_string(),
        "Workflow error: test"
    );
    assert_eq!(
        DataflowError::Task("test".to_string()).to_string(),
        "Task error: test"
    );
    assert_eq!(
        DataflowError::FunctionNotFound("test".to_string()).to_string(),
        "Function not found: test"
    );
    assert_eq!(
        DataflowError::http(404, "Not Found").to_string(),
        "HTTP error: 404 - Not Found"
    );
    assert_eq!(
        DataflowError::Timeout("test".to_string()).to_string(),
        "Timeout error: test"
    );
}

#[test]
fn test_error_conversions() {
    // Test from_serde (we can't easily create a real serde error, but we can test the conversion works)
    let json_str = "invalid json";
    let serde_result: std::result::Result<serde_json::Value, _> =
        serde_json::from_str(json_str);
    if let Err(e) = serde_result {
        let dataflow_err = DataflowError::from_serde(e);
        assert!(matches!(dataflow_err, DataflowError::Deserialization(_)));
    }
}

#[test]
fn service_error_carries_kind_detail_and_declared_retryability() {
    let e = DataflowError::service("circuit_open", "upstream unavailable")
        .detail("connector 'billing' breaker open")
        .retryable(true)
        .build();

    assert_eq!(e.kind(), Some("circuit_open"));
    assert_eq!(e.detail(), Some("connector 'billing' breaker open"));
    assert!(e.retryable());
}

#[test]
fn service_display_hides_the_detail_but_debug_shows_it() {
    let e = DataflowError::service("circuit_open", "upstream unavailable")
        .detail("SECRET-TOPOLOGY")
        .build();

    // `to_string()` is always safe to hand to an untrusted caller.
    assert_eq!(e.to_string(), "upstream unavailable");
    assert!(!e.to_string().contains("SECRET-TOPOLOGY"));
    // The operator channel is reachable through Debug.
    assert!(format!("{e:?}").contains("SECRET-TOPOLOGY"));
}

#[test]
fn service_retryability_is_independent_of_every_other_field() {
    let yes = DataflowError::service("k", "m").retryable(true).build();
    let no = DataflowError::service("k", "m").retryable(false).build();
    assert!(yes.retryable());
    assert!(!no.retryable());
    // Defaults to false.
    assert!(!DataflowError::service("k", "m").build().retryable());
}

#[test]
fn kind_and_detail_are_none_for_every_engine_owned_variant() {
    let variants = [
        DataflowError::Validation("v".into()),
        DataflowError::FunctionExecution {
            context: "c".into(),
            source: None,
        },
        DataflowError::LogicEvaluation("l".into()),
        DataflowError::Deserialization("d".into()),
        DataflowError::Workflow("w".into()),
        DataflowError::Task("t".into()),
        DataflowError::FunctionNotFound("f".into()),
        DataflowError::Http {
            status: 500,
            message: "h".into(),
        },
        DataflowError::Timeout("to".into()),
        DataflowError::Io("io".into()),
        DataflowError::Unknown("u".into()),
    ];
    assert_eq!(variants.len(), 11, "one assertion per engine-owned variant");
    for v in &variants {
        assert_eq!(v.kind(), None, "kind() for {v:?}");
        assert_eq!(v.detail(), None, "detail() for {v:?}");
    }
}

#[test]
fn service_error_code_passes_kind_through_verbatim() {
    // The recorded decision: verbatim, not upper-cased. A service switching
    // on the recorded `code` should not have to know a transform.
    let e = DataflowError::service("circuit_open", "m").build();
    let info = ErrorInfo::new(None, None, e);
    assert_eq!(info.code, "circuit_open");
}

#[test]
fn an_empty_kind_falls_back_rather_than_recording_an_empty_code() {
    let e = DataflowError::service("", "m").build();
    let info = ErrorInfo::new(None, None, e);
    assert_eq!(info.code, "TASK_ERROR");
    assert!(!info.code.is_empty());
}

#[test]
fn a_non_ascii_kind_is_neither_panicked_on_nor_mangled() {
    let e = DataflowError::service("limite_dépassé", "m").build();
    let info = ErrorInfo::new(None, None, e);
    // Verbatim, so the exact string round-trips including the accent.
    assert_eq!(info.code, "limite_dépassé");
}


#[test]
fn function_execution_carries_its_context_in_the_display_text() {
    let e = DataflowError::function_execution("HTTP call failed", None);
    assert_eq!(e.to_string(), "Function execution error: HTTP call failed");
}

#[test]
fn service_error_code_uses_the_kind() {
    let e = DataflowError::service("rate_limited", "slow down").build();
    assert_eq!(dataflow_rs::error::service_error_code(&e), "rate_limited");
    let empty = DataflowError::service("", "m").build();
    assert_eq!(dataflow_rs::error::service_error_code(&empty), "TASK_ERROR");
}

#[test]
fn with_retry_saturates_at_the_counter_limit() {
    let mut e = ErrorInfo::simple_ref("TEST", "Test", None);
    e.retry_count = Some(u32::MAX);
    let e = e.with_retry();
    assert_eq!(e.retry_count, Some(u32::MAX));
    assert_eq!(e.retry_attempted, Some(true));
}

#[test]
fn the_builder_keeps_an_explicit_timestamp_and_detail() {
    let e = ErrorInfo::builder("X", "y")
        .timestamp("2024-01-01T00:00:00Z")
        .detail("operator only")
        .build();
    assert_eq!(e.timestamp.as_deref(), Some("2024-01-01T00:00:00Z"));
    assert_eq!(e.detail.as_deref(), Some("operator only"));
}

#[test]
fn error_info_new_lifts_a_service_detail() {
    let with = ErrorInfo::new(
        None,
        None,
        DataflowError::service("k", "m").detail("op only").build(),
    );
    assert_eq!(with.detail.as_deref(), Some("op only"));
    let without = ErrorInfo::new(None, None, DataflowError::service("k", "m").build());
    assert_eq!(without.detail, None);
    let engine_owned = ErrorInfo::new(None, None, DataflowError::Task("t".into()));
    assert_eq!(engine_owned.detail, None);
}
