use agent_harness::config::{ModelConfig, SettingValue, Settings};
use agent_harness::error::{HarnessError, ModelError};
use agent_harness::messages::{BlockContent, Content, ContentBlock, ContentBlockType};
use agent_harness::models::anthropic::{
    AnthropicContent, AnthropicModel, AnthropicResponse, AnthropicStreamEvent,
};
use agent_harness::models::base::{
    Message, MessageRole, ModelCapabilities, ModelRequest, StreamEvent, TokenUsage,
};
use agent_harness::models::factory::ModelFactory;
use agent_harness::models::openai::{
    Choice, OpenAIContent, OpenAIModel, OpenAIResponse, OpenAIToolCall, StopSeq, StreamChoice,
};
use agent_harness::models::sse::{SseBuffer, SseItem};
use agent_harness::strmap::StrMap;

fn settings(pairs: Vec<(&str, SettingValue)>) -> Option<Settings> {
    Some(Settings { entries: pairs.into_iter().map(|(k, v)| (k.to_string(), v)).collect() })
}

#[test]
fn test_factory_error_on_unknown_provider() {
    let config = ModelConfig {
        name: "test".to_string(),
        provider: "unknown:provider".to_string(),
        supports_thinking: false,
        supports_vision: false,
        config: None,
    };

    let result = ModelFactory::create_model(&config);
    assert!(result.is_err());
    assert!(matches!(result, Err(HarnessError::Model(ModelError::NotFound(_)))));
}

#[test]
fn test_factory_error_anthropic_without_feature() {
    let config = ModelConfig {
        name: "model-3-5-sonnet".to_string(),
        provider: "langchain_anthropic:ChatAnthropic".to_string(),
        supports_thinking: true,
        supports_vision: true,
        config: settings(vec![("api_key", SettingValue::Str("sk-test".to_string()))]),
    };

    let result = ModelFactory::create_model(&config);
    assert!(result.is_err());
}

#[test]
fn test_anthropic_model_creation_fails_without_api_key() {
    let config = ModelConfig {
        name: "model-3-5-sonnet-20241022".to_string(),
        provider: "langchain_anthropic:ChatAnthropic".to_string(),
        supports_thinking: true,
        supports_vision: true,
        config: None,
    };

    let result = AnthropicModel::new(&config, &StrMap::new());
    assert!(result.is_err());
}

#[test]
fn test_anthropic_model_creation_with_api_key() {
    let config = ModelConfig {
        name: "model-3-5-sonnet-20241022".to_string(),
        provider: "langchain_anthropic:ChatAnthropic".to_string(),
        supports_thinking: true,
        supports_vision: true,
        config: settings(vec![("api_key", SettingValue::Str("sk-test".to_string()))]),
    };

    let result = AnthropicModel::new(&config, &StrMap::new());
    assert!(result.is_ok());
    let model = result.unwrap();
    assert_eq!(model.name(), "model-3-5-sonnet-20241022");
}

#[test]
fn test_openai_model_creation_fails_without_api_key() {
    let config = ModelConfig {
        name: "gpt-4".to_string(),
        provider: "langchain_openai:ChatOpenAI".to_string(),
        supports_thinking: false,
        supports_vision: true,
        config: None,
    };

    let result = OpenAIModel::new(&config, &StrMap::new());
    assert!(result.is_err());
}

#[test]
fn test_openai_model_creation_with_api_key() {
    let config = ModelConfig {
        name: "gpt-4".to_string(),
        provider: "langchain_openai:ChatOpenAI".to_string(),
        supports_thinking: false,
        supports_vision: true,
        config: settings(vec![("api_key", SettingValue::Str("sk-test".to_string()))]),
    };

    let result = OpenAIModel::new(&config, &StrMap::new());
    assert!(result.is_ok());
    let model = result.unwrap();
    assert_eq!(model.name(), "gpt-4");
}

#[test]
fn api_keys_come_from_the_environment() {
    let config = ModelConfig {
        name: "m".to_string(),
        provider: "p".to_string(),
        supports_thinking: true,
        supports_vision: false,
        config: settings(vec![
            ("api_key", SettingValue::Str("$KEY".to_string())),
            ("thinking_enabled", SettingValue::Bool(true)),
        ]),
    };
    let mut env = StrMap::new();
    assert!(matches!(
        AnthropicModel::new(&config, &env),
        Err(HarnessError::Model(ModelError::InvalidApiKey(p))) if p == "anthropic"
    ));
    env.insert("KEY".to_string(), "secret".to_string());
    let m = AnthropicModel::new(&config, &env).unwrap();
    assert_eq!(m.api_key(), "secret");
    assert_eq!(m.base_url(), "https://api.anthropic.com");
    assert!(m.capabilities().thinking);
    let o = OpenAIModel::new(&config, &env).unwrap();
    assert_eq!(o.base_url(), "https://api.openai.com/v1");
}

#[test]
fn token_usage_totals() {
    let u = TokenUsage::new(3, 4);
    assert_eq!(u.total_tokens, 7);
    let c = ModelCapabilities::new();
    assert!(c.function_calling && c.streaming && !c.thinking);
}

fn request(messages: Vec<Message>, stop: Vec<String>) -> ModelRequest {
    ModelRequest { messages, temperature: Some(700), max_tokens: None, top_p: None, top_k: None, stop }
}

fn model_config(api_key: &str) -> ModelConfig {
    ModelConfig {
        name: "m1".to_string(),
        provider: "p".to_string(),
        supports_thinking: false,
        supports_vision: false,
        config: settings(vec![("api_key", SettingValue::Str(api_key.to_string()))]),
    }
}

#[test]
fn anthropic_requests_take_the_system_prompt_apart() {
    let model = AnthropicModel::new(&model_config("k"), &StrMap::new()).unwrap();
    let q = request(
        vec![
            Message::system(Content::text("sys")),
            Message::human(Content::text("hi")),
            Message::tool("c1", "t", Content::text("out")),
        ],
        vec![],
    );
    let r = model.build_request(&q);
    assert_eq!(r.system.as_deref(), Some("sys"));
    assert_eq!(r.messages.len(), 2);
    assert_eq!(r.messages[0].role, "user");
    assert_eq!(r.max_tokens, 4096);
    assert!(r.stop_sequences.is_none());
    assert!(r.thinking.is_none() && r.betas.is_none());
}

#[test]
fn anthropic_blocks_for_images() {
    let msg = Message::human(Content::Mixed(vec![
        ContentBlock {
            block_type: ContentBlockType::ImageUrl,
            content: BlockContent::Fields(vec![("data".to_string(), "AAAA".to_string())]),
        },
        ContentBlock { block_type: ContentBlockType::ImageUrl, content: BlockContent::Other },
    ]));
    let blocks = AnthropicModel::convert_content(&msg);
    match &blocks[0] {
        AnthropicContent::Image { media_type, data } => {
            assert_eq!(media_type, "image/png");
            assert_eq!(data, "AAAA");
        }
        other => panic!("unexpected {:?}", other),
    }
    match &blocks[1] {
        AnthropicContent::Text { text } => assert_eq!(text, "[Unsupported image content]"),
        other => panic!("unexpected {:?}", other),
    }
}

#[test]
fn anthropic_responses_join_text_and_collect_calls() {
    let resp = AnthropicResponse {
        id: "r".to_string(),
        role: "assistant".to_string(),
        content: vec![
            AnthropicContent::Text { text: "Hel".to_string() },
            AnthropicContent::ToolUse {
                id: "c".to_string(),
                name: "bash".to_string(),
                input: "{}".to_string(),
            },
            AnthropicContent::Text { text: "lo".to_string() },
        ],
        stop_reason: Some("end_turn".to_string()),
        usage: Some((10, 5)),
    };
    let r = AnthropicModel::convert_response(resp);
    assert_eq!(r.message.role, MessageRole::Ai);
    assert_eq!(r.message.content.as_text(), Some("Hello"));
    assert_eq!(r.message.tool_calls.len(), 1);
    assert_eq!(r.message.tool_calls[0].name, "bash");
    assert_eq!(r.usage.unwrap().total_tokens, 15);
    assert_eq!(r.finish_reason.as_deref(), Some("end_turn"));
}

#[test]
fn anthropic_stream_events_map_to_events() {
    let (events, end) = AnthropicModel::stream_events(AnthropicStreamEvent::ContentBlockDelta {
        index: 0,
        text: "abc".to_string(),
        stop_reason: Some("x".to_string()),
    });
    assert!(!end);
    assert_eq!(events.len(), 2);
    assert!(matches!(&events[0], StreamEvent::TokenDelta { delta, index: 0 } if delta == "abc"));
    let (events, end) = AnthropicModel::stream_events(AnthropicStreamEvent::MessageStop);
    assert!(end);
    assert!(matches!(events[0], StreamEvent::End));
    let (events, _) = AnthropicModel::stream_events(AnthropicStreamEvent::ContentBlockStart { index: 1 });
    assert!(events.is_empty());
}

#[test]
fn openai_requests_and_responses() {
    let model = OpenAIModel::new(&model_config("k"), &StrMap::new()).unwrap();
    let q = request(
        vec![Message::system(Content::text("sys")), Message::human(Content::image_base64("image/png", "QQ"))],
        vec!["END".to_string()],
    );
    let r = model.build_request(&q);
    assert_eq!(r.messages.len(), 2);
    assert_eq!(r.messages[0].role, "system");
    match &r.messages[1].content {
        OpenAIContent::Parts(p) => assert_eq!(p[0].image_url.as_deref(), Some("data:image/png;base64,QQ")),
        other => panic!("unexpected {:?}", other),
    }
    assert!(matches!(&r.stop, Some(StopSeq::Single(s)) if s == "END"));
    let resp = OpenAIResponse {
        id: "x".to_string(),
        choices: vec![Choice {
            content: None,
            tool_calls: Some(vec![OpenAIToolCall {
                id: "c".to_string(),
                call_type: "function".to_string(),
                name: "ls".to_string(),
                arguments: "not json".to_string(),
            }]),
            finish_reason: Some("tool_calls".to_string()),
        }],
        usage: Some((1, 2, 3)),
    };
    let out = OpenAIModel::convert_response(resp);
    assert_eq!(out.message.content.as_text(), Some(""));
    assert_eq!(out.message.tool_calls[0].arguments, "{}");
    assert_eq!(out.usage.unwrap().total_tokens, 3);
    let ev = OpenAIModel::chunk_events(&vec![StreamChoice {
        content: Some("t".to_string()),
        finish_reason: None,
    }]);
    assert_eq!(ev.len(), 1);
}

#[test]
fn sse_lines_are_read_as_they_complete() {
    let mut b = SseBuffer::new();
    b.push("event: x\ndata: {\"a\":1}\n\nda");
    match b.next_item() {
        Some(SseItem::Data(d)) => assert_eq!(d, "{\"a\":1}"),
        other => panic!("unexpected {:?}", other),
    }
    assert!(b.next_item().is_none());
    b.push("ta: [DONE]\n");
    assert!(matches!(b.next_item(), Some(SseItem::Done)));
}
