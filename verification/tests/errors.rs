use agent_harness::error::{ConfigError, ErrorCategory, ErrorContext, HarnessError, ModelError, ToolError};

#[test]
fn test_error_category() {
    let err = HarnessError::Config(ConfigError::MissingField("test".to_string()));
    assert_eq!(err.category(), ErrorCategory::Config);

    let err = HarnessError::Model(ModelError::NotFound("gpt-4".to_string()));
    assert_eq!(err.category(), ErrorCategory::Model);
}

#[test]
fn test_error_display() {
    let err = HarnessError::Model(ModelError::NotFound("gpt-4".to_string()));
    assert!(err.to_string().contains("gpt-4"));
    assert!(err.to_string().contains("Model error"));
}

#[test]
fn test_retryable() {
    let err = HarnessError::http("Connection refused");
    assert!(err.is_retryable());

    let err = HarnessError::Model(ModelError::RateLimited(60));
    assert!(err.is_retryable());

    let err = HarnessError::Config(ConfigError::MissingField("test".to_string()));
    assert!(!err.is_retryable());
}

#[test]
fn tool_errors_render_their_message() {
    let err = HarnessError::Tool(ToolError::TooManyCalls(3));
    assert_eq!(err.category(), ErrorCategory::Tool);
    assert!(err.to_string().contains("3"));
    assert_eq!(HarnessError::other("x").category(), ErrorCategory::Other);
}

#[test]
fn error_context_formats_its_parts() {
    let c = ErrorContext::new("load").with_context("file a").with_source("io");
    let s = c.format();
    assert!(s.contains("load"));
    assert!(s.contains("file a"));
    assert!(s.contains("io"));
}
