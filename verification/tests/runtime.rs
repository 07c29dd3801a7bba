use agent_harness::runtime::{shared_context_with_thread, RuntimeContext, RuntimeMetadata};

#[test]
fn test_runtime_context_new() {
    let ctx = RuntimeContext::new();
    assert!(ctx.thread_id.is_none());
    assert!(ctx.agent_name.is_none());
}

#[test]
fn test_runtime_context_with_thread_id() {
    let ctx = RuntimeContext::with_thread_id("test-thread");
    assert_eq!(ctx.thread_id.as_deref(), Some("test-thread"));
}

#[test]
fn test_runtime_context_builder() {
    let ctx = RuntimeContext::new().with_agent_name("test-agent").with_extra("key", "value");
    assert_eq!(ctx.agent_name.as_deref(), Some("test-agent"));
    assert_eq!(ctx.extra.get("key"), Some(&"value".to_string()));
}

#[test]
fn test_require_thread_id() {
    let ctx = RuntimeContext::with_thread_id("test-thread");
    assert_eq!(ctx.require_thread_id(), "test-thread");
}

#[test]
#[should_panic(expected = "thread_id is required")]
fn test_require_thread_id_panic() {
    let ctx = RuntimeContext::new();
    ctx.require_thread_id();
}

#[test]
fn test_runtime_metadata() {
    let metadata = RuntimeMetadata::new()
        .with_model_name("model-opus-4-6")
        .with_thinking_enabled(true)
        .with_plan_mode(false)
        .with_custom("custom_key", "custom_value");
    assert_eq!(metadata.model_name.as_deref(), Some("model-opus-4-6"));
    assert_eq!(metadata.thinking_enabled, Some(true));
    assert_eq!(metadata.is_plan_mode, Some(false));
    assert_eq!(metadata.custom.get("custom_key"), Some(&"custom_value".to_string()));
}

#[test]
fn test_shared_context() {
    let ctx = shared_context_with_thread("test-thread");
    assert_eq!(ctx.thread_id.as_deref(), Some("test-thread"));
}

#[test]
fn request_ids_are_fresh() {
    let a = RuntimeContext::new();
    let b = RuntimeContext::new();
    assert_ne!(a.request_id, b.request_id);
    let c = RuntimeContext::with_thread_id("t").with_metadata(RuntimeMetadata::new().with_plan_mode(true));
    assert_eq!(c.metadata.is_plan_mode, Some(true));
}
