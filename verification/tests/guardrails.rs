use agent_harness::guardrails::{AllowlistProvider, GuardrailCheck, GuardrailError, GuardrailResult};

fn json_object(pairs: &[(&str, &str)]) -> String {
    let mut map = serde_json::Map::new();
    for (k, v) in pairs {
        map.insert(k.to_string(), serde_json::Value::String(v.to_string()));
    }
    serde_json::Value::Object(map).to_string()
}

#[test]
fn test_guardrail_result_allowed() {
    let result = GuardrailResult::allowed();
    assert!(result.allowed);
    assert!(result.denial_reason.is_none());
}

#[test]
fn test_guardrail_result_denied() {
    let result = GuardrailResult::denied("Tool not allowed");
    assert!(!result.allowed);
    assert_eq!(result.denial_reason, Some("Tool not allowed".to_string()));
}

#[test]
fn test_guardrail_check_new() {
    let args = json_object(&[("param", "value")]);
    let check = GuardrailCheck::new("test_tool", &args, "thread-123");

    assert_eq!(check.tool_name, "test_tool");
    assert_eq!(check.arguments, args.as_str());
    assert_eq!(check.thread_id, "thread-123");
    assert!(check.user_id.is_none());
}

#[test]
fn test_guardrail_check_with_user_id() {
    let args = json_object(&[("param", "value")]);
    let check = GuardrailCheck::new("test_tool", &args, "thread-123").with_user_id("user-456");

    assert_eq!(check.user_id, Some("user-456"));
}

#[test]
fn test_allowlist_provider_default() {
    let provider = AllowlistProvider::default();
    assert_eq!(provider.name(), "allowlist");
    assert!(provider.enabled());
    assert!(provider.is_empty());
    assert_eq!(provider.len(), 0);
}

#[test]
fn test_allowlist_provider_new() {
    let provider = AllowlistProvider::new(vec!["tool1".to_string(), "tool2".to_string()]);

    assert_eq!(provider.len(), 2);
    assert!(provider.is_allowed("tool1"));
    assert!(provider.is_allowed("tool2"));
    assert!(!provider.is_allowed("tool3"));
}

#[test]
fn test_allowlist_provider_check() {
    let provider = AllowlistProvider::new(vec!["bash".to_string(), "read_file".to_string()]);

    let args = json_object(&[("command", "ls")]);
    let check = GuardrailCheck::new("bash", &args, "thread-1");

    let result = provider.check(&check).unwrap();
    assert!(result.allowed);

    let check2 = GuardrailCheck::new("delete_file", &args, "thread-1");
    let result2 = provider.check(&check2).unwrap();
    assert!(!result2.allowed);
    assert!(result2.denial_reason.unwrap().contains("delete_file"));
}

#[test]
fn test_allowlist_provider_disabled() {
    let provider = AllowlistProvider::new(vec!["tool1".to_string()]).with_enabled(false);

    let args = json_object(&[]);
    let check = GuardrailCheck::new("any_tool", &args, "thread-1");

    let result = provider.check(&check).unwrap();
    assert!(result.allowed);
}

#[test]
fn test_allowlist_provider_add_remove() {
    let mut provider = AllowlistProvider::new(vec!["tool1".to_string()]);

    assert_eq!(provider.len(), 1);
    assert!(provider.is_allowed("tool1"));

    provider.add_tool("tool2");
    assert_eq!(provider.len(), 2);
    assert!(provider.is_allowed("tool2"));

    assert!(provider.remove_tool("tool1"));
    assert_eq!(provider.len(), 1);
    assert!(!provider.is_allowed("tool1"));

    assert!(!provider.remove_tool("nonexistent"));
}

#[test]
fn test_allowlist_provider_custom_denial() {
    let provider = AllowlistProvider::new(vec!["tool1".to_string()]).with_denial_message("Custom denial");

    let args = json_object(&[]);
    let check = GuardrailCheck::new("tool2", &args, "thread-1");

    let result = provider.check(&check).unwrap();
    assert!(!result.allowed);
    assert!(result.denial_reason.unwrap().contains("Custom denial"));
}

#[test]
fn test_allowlist_provider_with_name() {
    let provider = AllowlistProvider::new(vec![]).with_name("custom_allowlist");

    assert_eq!(provider.name(), "custom_allowlist");
}

#[test]
fn denial_reason_is_exact() {
    let provider = AllowlistProvider::new(vec!["a".to_string()]);
    let check = GuardrailCheck::new("b", "{}", "t");
    let result = provider.check(&check).unwrap();
    assert_eq!(result.denial_reason.as_deref(), Some("Tool is not in the allowlist: b"));
    assert!(result.metadata.is_none());
}

#[test]
fn add_then_remove_restores_membership() {
    let mut provider = AllowlistProvider::new(vec!["a".to_string()]);
    provider.add_tool("b");
    assert!(provider.remove_tool("b"));
    assert!(!provider.is_allowed("b"));
    assert!(provider.is_allowed("a"));
    provider.add_tool("a");
    assert_eq!(provider.len(), 1);
    let mut tools = provider.allowed_tools();
    tools.sort();
    assert_eq!(tools, vec!["a".to_string()]);
}

#[test]
fn denied_with_metadata_keeps_detail() {
    let r = GuardrailResult::denied_with_metadata("no", "{\"k\":1}".to_string());
    assert!(!r.allowed);
    assert_eq!(r.metadata.as_deref(), Some("{\"k\":1}"));
}

#[test]
fn guardrail_error_messages() {
    assert_eq!(GuardrailError::Provider("x".to_string()).to_string(), "Provider error: x");
    assert_eq!(GuardrailError::InvalidConfig("y".to_string()).to_string(), "Invalid configuration: y");
    assert_eq!(GuardrailError::CheckFailed("z".to_string()).to_string(), "Check failed: z");
}
