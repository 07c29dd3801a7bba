use agent_harness::error::{HarnessError, ToolError};
use agent_harness::mcp::{
    McpClient, McpClientConfig, McpContent, McpOAuthConfig, McpServerType, McpToolAdapter,
    McpToolDefinition, McpToolResult,
};

fn stdio_config() -> McpClientConfig {
    McpClientConfig {
        name: "test-server".to_string(),
        server_type: McpServerType::Stdio,
        command: Some("node".to_string()),
        args: Some(vec!["server.js".to_string()]),
        env: None,
        url: None,
        headers: None,
        oauth: None,
    }
}

fn schema_text() -> String {
    let mut arg1 = serde_json::Map::new();
    arg1.insert("type".to_string(), serde_json::Value::String("string".to_string()));
    arg1.insert("description".to_string(), serde_json::Value::String("First argument".to_string()));
    let mut props = serde_json::Map::new();
    props.insert("arg1".to_string(), serde_json::Value::Object(arg1));
    let mut root = serde_json::Map::new();
    root.insert("type".to_string(), serde_json::Value::String("object".to_string()));
    root.insert("properties".to_string(), serde_json::Value::Object(props));
    serde_json::Value::Object(root).to_string()
}

#[test]
fn test_mcp_server_type() {
    let stdio = McpServerType::Stdio;
    assert_eq!(stdio, McpServerType::Stdio);

    let sse = McpServerType::Sse;
    assert_eq!(sse, McpServerType::Sse);

    let http = McpServerType::Http;
    assert_eq!(http, McpServerType::Http);
}

#[test]
fn test_mcp_client_config() {
    let config = stdio_config();

    assert_eq!(config.name, "test-server");
    assert_eq!(config.server_type, McpServerType::Stdio);
    assert_eq!(config.command, Some("node".to_string()));
}

#[test]
fn test_mcp_client_new() {
    let client = McpClient::new(stdio_config());
    assert_eq!(client.config().name, "test-server");

    let tools = client.list_tools().unwrap();
    assert!(tools.is_empty());
}

#[test]
fn test_mcp_tool_adapter_schema() {
    let _client = McpClient::new(stdio_config());

    let definition = McpToolDefinition {
        name: "test_tool".to_string(),
        description: "A test tool".to_string(),
        input_schema: schema_text(),
        server_name: "test-server".to_string(),
    };

    let adapter = McpToolAdapter::new(definition);
    assert_eq!(adapter.schema.name, "test_tool");
    assert_eq!(adapter.schema.description, "A test tool");
    assert_eq!(adapter.schema.group, Some("mcp:test-server".to_string()));
    assert_eq!(adapter.schema.parameters, schema_text());
}

#[test]
fn call_tool_unknown_tool_fails() {
    let client = McpClient::new(stdio_config());
    match client.call_tool("missing", "{}") {
        Err(HarnessError::Other(m)) => assert_eq!(m, "MCP tool not found: missing"),
        _ => panic!("expected an error"),
    }
}

#[test]
fn adapter_execute_reports_failure() {
    let client = McpClient::new(stdio_config());
    let adapter = McpToolAdapter::new(McpToolDefinition {
        name: "t".to_string(),
        description: "d".to_string(),
        input_schema: "{}".to_string(),
        server_name: "s".to_string(),
    });
    match adapter.execute(&client, "{}") {
        Err(ToolError::ExecutionFailed(m)) => {
            assert_eq!(m, "MCP tool call failed: MCP tool not found: t")
        }
        _ => panic!("expected an error"),
    }
}

#[test]
fn from_client_without_tools_is_empty() {
    let client = McpClient::new(stdio_config());
    assert!(McpToolAdapter::from_client(&client).unwrap().is_empty());
}

#[test]
fn refresh_token_needs_oauth() {
    let mut client = McpClient::new(stdio_config());
    match client.refresh_token() {
        Err(HarnessError::Other(m)) => assert_eq!(m, "No OAuth configuration found"),
        _ => panic!("expected an error"),
    }
    let mut config = stdio_config();
    config.oauth = Some(McpOAuthConfig {
        token_endpoint: "https://auth.example/token".to_string(),
        client_id: "id".to_string(),
        client_secret: "SECRET-REDACTED".to_string(),
        grant_type: "client_credentials".to_string(),
        refresh_token: None,
    });
    let mut client = McpClient::new(config);
    assert!(client.refresh_token().is_ok());
}

#[test]
fn render_result_pieces() {
    let ok = McpToolResult {
        content: vec![
            McpContent::Text { text: "hello".to_string() },
            McpContent::Image { data: "abcd".to_string(), mime_type: "image/png".to_string() },
            McpContent::Resource {
                uri: "file:///x".to_string(),
                mime_type: None,
                text: None,
                blob: Some("xyz".to_string()),
            },
            McpContent::Resource { uri: "file:///y".to_string(), mime_type: None, text: None, blob: None },
        ],
        is_error: false,
    };
    let out = McpToolAdapter::render(&ok);
    assert!(!out.is_error);
    assert_eq!(out.content, "hello\n[Image: 4 bytes]\n[Binary resource: 3 bytes]\nfile:///y");

    let err = McpToolResult {
        content: vec![
            McpContent::Text { text: "bad".to_string() },
            McpContent::Image { data: "zz".to_string(), mime_type: "image/png".to_string() },
            McpContent::Text { text: "worse".to_string() },
        ],
        is_error: true,
    };
    let out = McpToolAdapter::render(&err);
    assert!(out.is_error);
    assert_eq!(out.content, "bad\nworse");
}
