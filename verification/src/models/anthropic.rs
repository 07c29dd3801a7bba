//! The Anthropic provider: a model's settings, the request of the
//! Messages API, the conversion of its response, and the events of its
//! stream.
//!
//! Sending the request and decoding JSON are the caller's part; the
//! library builds what is sent from a `ModelRequest` and turns what comes
//! back into a `ModelResponse` or stream events.
use crate::config::ModelConfig;
use crate::error::HarnessError;
use crate::messages::{
    BlockContent, Content, ContentBlock, ContentBlockModel, ContentBlockType, ContentModel,
    block_field, block_str, block_views,
};
use crate::models::base::{
    Message, MessageModel, MessageRole, ModelCapabilities, ModelRequest, ModelRequestModel,
    ModelResponse, StreamEvent, StreamEventModel, TokenUsage, ToolCall, ToolCallModel, call_views,
    clone_opt, event_views, message_views, opt_view, plain_message,
};
use crate::models::provider::{
    capabilities_of, config_bool, config_str, configured_capabilities, first_system_text,
    invalid_key, model_setting_bool, model_setting_str, resolve_api_key, resolved_key,
    system_text, without_system,
};
use crate::strmap::StrMap;
use crate::text::{join_strings, owned, views, join};
use vstd::prelude::*;

verus! {

/// A content block of the Messages API.
#[derive(Debug)]
pub enum AnthropicContent {
    /// Text.
    Text {
        /// The text.
        text: String,
    },
    /// An image.
    Image {
        /// Its media type.
        media_type: String,
        /// Its data or URL.
        data: String,
    },
    /// A tool call.
    ToolUse {
        /// The call's id.
        id: String,
        /// The tool.
        name: String,
        /// The arguments, as JSON text.
        input: String,
    },
    /// A tool's result.
    ToolResult {
        /// The call answered.
        tool_use_id: String,
        /// The result.
        content: String,
    },
}

/// The abstract value of a content block.
pub enum AnthropicContentModel {
    /// Text.
    Text(Seq<char>),
    /// An image: media type and data.
    Image(Seq<char>, Seq<char>),
    /// A tool call: id, tool, arguments.
    ToolUse(Seq<char>, Seq<char>, Seq<char>),
    /// A tool result: call id and content.
    ToolResult(Seq<char>, Seq<char>),
}

impl View for AnthropicContent {
    type V = AnthropicContentModel;

    open spec fn view(&self) -> AnthropicContentModel {
        match self {
            AnthropicContent::Text { text } => AnthropicContentModel::Text(text@),
            AnthropicContent::Image { media_type, data } => AnthropicContentModel::Image(
                media_type@,
                data@,
            ),
            AnthropicContent::ToolUse { id, name, input } => AnthropicContentModel::ToolUse(
                id@,
                name@,
                input@,
            ),
            AnthropicContent::ToolResult { tool_use_id, content } =>
                AnthropicContentModel::ToolResult(tool_use_id@, content@),
        }
    }
}

/// The views of a list of blocks.
pub open spec fn anthropic_views(v: Seq<AnthropicContent>) -> Seq<AnthropicContentModel> {
    v.map_values(|c: AnthropicContent| c@)
}

/// A message of the Messages API.
#[derive(Debug)]
pub struct AnthropicMessage {
    /// `user` or `assistant`.
    pub role: String,
    /// Its blocks.
    pub content: Vec<AnthropicContent>,
}

/// The abstract value of a message.
pub struct AnthropicMessageModel {
    /// The role.
    pub role: Seq<char>,
    /// The blocks.
    pub content: Seq<AnthropicContentModel>,
}

impl View for AnthropicMessage {
    type V = AnthropicMessageModel;

    open spec fn view(&self) -> AnthropicMessageModel {
        AnthropicMessageModel { role: self.role@, content: anthropic_views(self.content@) }
    }
}

/// A request of the Messages API.  Temperature and top-p are in
/// thousandths.
#[derive(Debug)]
pub struct AnthropicRequest {
    /// The model.
    pub model: String,
    /// The messages.
    pub messages: Vec<AnthropicMessage>,
    /// Most tokens to generate.
    pub max_tokens: u32,
    /// Temperature, in thousandths.
    pub temperature: Option<u32>,
    /// Top-p, in thousandths.
    pub top_p: Option<u32>,
    /// Top-k.
    pub top_k: Option<u32>,
    /// Stop sequences.
    pub stop_sequences: Option<Vec<String>>,
    /// The system prompt.
    pub system: Option<String>,
    /// Whether extended thinking is on.
    pub thinking: Option<bool>,
    /// Beta features.
    pub betas: Option<Vec<String>>,
}

/// A response of the Messages API.
#[derive(Debug)]
pub struct AnthropicResponse {
    /// The response's id.
    pub id: String,
    /// Its role.
    pub role: String,
    /// Its blocks.
    pub content: Vec<AnthropicContent>,
    /// Why generation stopped.
    pub stop_reason: Option<String>,
    /// Input and output tokens.
    pub usage: Option<(u32, u32)>,
}

/// An event of the Messages API's stream, as far as the library reads it.
#[derive(Debug)]
pub enum AnthropicStreamEvent {
    /// A message starts.
    MessageStart,
    /// The message's totals: input and output tokens.
    MessageDelta {
        /// Input tokens.
        input_tokens: u32,
        /// Output tokens.
        output_tokens: u32,
    },
    /// The message ends.
    MessageStop,
    /// A block starts.
    ContentBlockStart {
        /// The block.
        index: u32,
    },
    /// A piece of a block.
    ContentBlockDelta {
        /// The block.
        index: u32,
        /// Its text (empty when it has none).
        text: String,
        /// Why generation stopped, if it did.
        stop_reason: Option<String>,
    },
    /// A block ends.
    ContentBlockStop {
        /// The block.
        index: u32,
    },
}

/// The model a configuration names, through the Anthropic API.
#[derive(Debug)]
pub struct AnthropicModel {
    name: String,
    model_id: String,
    api_key: String,
    base_url: String,
    capabilities: ModelCapabilities,
    thinking_enabled: bool,
}

/// The abstract value of a model.
pub struct AnthropicModelView {
    /// Its name.
    pub name: Seq<char>,
    /// The model's id at the API.
    pub model_id: Seq<char>,
    /// The API key.
    pub api_key: Seq<char>,
    /// The API's base URL.
    pub base_url: Seq<char>,
    /// Its capabilities.
    pub capabilities: ModelCapabilities,
    /// Whether extended thinking is asked for.
    pub thinking_enabled: bool,
}

impl View for AnthropicModel {
    type V = AnthropicModelView;

    closed spec fn view(&self) -> AnthropicModelView {
        AnthropicModelView {
            name: self.name@,
            model_id: self.model_id@,
            api_key: self.api_key@,
            base_url: self.base_url@,
            capabilities: self.capabilities,
            thinking_enabled: self.thinking_enabled,
        }
    }
}

/// The role of a message at the API: `assistant` for the AI, `user`
/// for everyone else.
pub open spec fn anthropic_role(r: MessageRole) -> Seq<char> {
    match r {
        MessageRole::Ai => "assistant"@,
        _ => "user"@,
    }
}

/// A block of mixed content at the API.
pub open spec fn anthropic_block(b: ContentBlockModel) -> AnthropicContentModel {
    match b.block_type {
        ContentBlockType::Text => AnthropicContentModel::Text(
            match block_str(b.content) {
                Some(s) => s,
                None => Seq::empty(),
            },
        ),
        ContentBlockType::ImageUrl => match block_field(b.content, "url"@) {
            Some(u) => AnthropicContentModel::Image("image/jpeg"@, u),
            None => match block_field(b.content, "data"@) {
                Some(d) => AnthropicContentModel::Image(
                    match block_field(b.content, "mime_type"@) {
                        Some(m) => m,
                        None => "image/png"@,
                    },
                    d,
                ),
                None => AnthropicContentModel::Text("[Unsupported image content]"@),
            },
        },
    }
}

/// The blocks of a message's content at the API.
pub open spec fn anthropic_content(c: ContentModel) -> Seq<AnthropicContentModel> {
    match c {
        ContentModel::Text(t) => seq![AnthropicContentModel::Text(t)],
        ContentModel::Image { mime_type, data } => seq![
            AnthropicContentModel::Image(mime_type, data),
        ],
        ContentModel::Mixed(blocks) => blocks.map_values(|b: ContentBlockModel| anthropic_block(b)),
    }
}

/// A message at the API.
pub open spec fn anthropic_message(m: MessageModel) -> AnthropicMessageModel {
    AnthropicMessageModel { role: anthropic_role(m.role), content: anthropic_content(m.content) }
}

/// The API's text of a message: the concatenated text blocks.
pub open spec fn response_text(c: Seq<AnthropicContentModel>) -> Seq<char>
    decreases c.len(),
{
    if c.len() == 0 {
        Seq::empty()
    } else {
        response_text(c.drop_last()) + match c.last() {
            AnthropicContentModel::Text(t) => t,
            _ => Seq::empty(),
        }
    }
}

/// The tool calls of a response's blocks, in order.
pub open spec fn response_calls(c: Seq<AnthropicContentModel>) -> Seq<ToolCallModel>
    decreases c.len(),
{
    if c.len() == 0 {
        Seq::empty()
    } else {
        match c.last() {
            AnthropicContentModel::ToolUse(id, name, input) => response_calls(c.drop_last()).push(
                ToolCallModel { id, name, arguments: input },
            ),
            _ => response_calls(c.drop_last()),
        }
    }
}

/// Usage of the given counts.
pub open spec fn usage_of(u: Option<(u32, u32)>) -> Option<TokenUsage> {
    match u {
        Some((i, o)) => Some(
            TokenUsage { input_tokens: i, output_tokens: o, total_tokens: (i + o) as u32 },
        ),
        None => None,
    }
}

/// Whether the usage's total fits in 32 bits.
pub open spec fn usage_fits(u: Option<(u32, u32)>) -> bool {
    match u {
        Some((i, o)) => i + o <= u32::MAX,
        None => true,
    }
}

/// An AI message with empty text and the given usage.
pub open spec fn empty_ai_message(usage: Option<TokenUsage>) -> MessageModel {
    MessageModel { usage, ..plain_message(MessageRole::Ai, ContentModel::Text(Seq::empty())) }
}

/// The stream events an event of the API's stream gives, and whether it
/// ends the stream.
pub open spec fn anthropic_stream_events(e: AnthropicStreamEvent) -> (Seq<StreamEventModel>, bool) {
    match e {
        AnthropicStreamEvent::ContentBlockDelta { text, stop_reason, .. } => (
            (if text@.len() > 0 {
                seq![StreamEventModel::TokenDelta(text@, 0)]
            } else {
                Seq::empty()
            }) + (if stop_reason is Some {
                seq![StreamEventModel::MessageComplete(empty_ai_message(None))]
            } else {
                Seq::empty()
            }),
            false,
        ),
        AnthropicStreamEvent::MessageDelta { input_tokens, output_tokens } => (
            seq![
                StreamEventModel::MessageComplete(
                    empty_ai_message(usage_of(Some((input_tokens, output_tokens)))),
                ),
            ],
            false,
        ),
        AnthropicStreamEvent::MessageStop => (seq![StreamEventModel::End], true),
        _ => (Seq::empty(), false),
    }
}

/// An AI message with empty text and the given usage.
fn empty_ai(usage: Option<TokenUsage>) -> (m: Message)
    ensures
        m@ == empty_ai_message(usage),
{
    proof {
        reveal_strlit("");
    }
    assert(""@ =~= Seq::<char>::empty());
    Message {
        role: MessageRole::Ai,
        content: Content::text(""),
        tool_calls: crate::models::base::no_calls(),
        tool_call_id: None,
        metadata: None,
        usage,
    }
}

impl AnthropicModel {
    /// The model a configuration describes, with `$NAME` API keys read
    /// from `env`.  It fails with `InvalidApiKey("anthropic")` when the
    /// settings hold no string `api_key` or name an unset variable.  The
    /// base URL defaults to `https://api.anthropic.com`, and extended
    /// thinking is on when the setting `thinking_enabled` says so.
    pub fn new(config: &ModelConfig, env: &StrMap<String>) -> (r: Result<Self, HarnessError>)
        ensures
            match config_str(*config, "api_key"@) {
                Some(k) => match resolved_key(k, env@) {
                    Some(key) => r matches Ok(m) && m@ == (AnthropicModelView {
                        name: config.name@,
                        model_id: config.name@,
                        api_key: key,
                        base_url: match config_str(*config, "base_url"@) {
                            Some(u) => u,
                            None => "https://api.anthropic.com"@,
                        },
                        capabilities: configured_capabilities(*config),
                        thinking_enabled: match config_bool(*config, "thinking_enabled"@) {
                            Some(b) => b,
                            None => false,
                        },
                    }),
                    None => r matches Err(e) && e matches HarnessError::Model(
                        crate::error::ModelError::InvalidApiKey(p),
                    ) && p@ == "anthropic"@,
                },
                None => r matches Err(e) && e matches HarnessError::Model(
                    crate::error::ModelError::InvalidApiKey(p),
                ) && p@ == "anthropic"@,
            },
    {
        let key = match model_setting_str(config, "api_key") {
            Some(k) => k,
            None => {
                return Err(invalid_key("anthropic"));
            },
        };
        let api_key = match resolve_api_key(key, env) {
            Some(k) => k,
            None => {
                return Err(invalid_key("anthropic"));
            },
        };
        let base_url = match model_setting_str(config, "base_url") {
            Some(u) => owned(u),
            None => owned("https://api.anthropic.com"),
        };
        let thinking_enabled = match model_setting_bool(config, "thinking_enabled") {
            Some(b) => b,
            None => false,
        };
        Ok(
            AnthropicModel {
                name: config.name.clone(),
                model_id: config.name.clone(),
                api_key,
                base_url,
                capabilities: capabilities_of(config),
                thinking_enabled,
            },
        )
    }

    /// The model's name.
    pub fn name(&self) -> (r: &str)
        ensures
            r@ == self@.name,
    {
        self.name.as_str()
    }

    /// The model's capabilities.
    pub fn capabilities(&self) -> (r: &ModelCapabilities)
        ensures
            *r == self@.capabilities,
    {
        &self.capabilities
    }

    /// The API key.
    pub fn api_key(&self) -> (r: &str)
        ensures
            r@ == self@.api_key,
    {
        self.api_key.as_str()
    }

    /// The API's base URL.
    pub fn base_url(&self) -> (r: &str)
        ensures
            r@ == self@.base_url,
    {
        self.base_url.as_str()
    }

    /// The blocks of a message's content at the API.
    pub fn convert_content(msg: &Message) -> (r: Vec<AnthropicContent>)
        ensures
            anthropic_views(r@) == anthropic_content(msg@.content),
    {
        let mut r: Vec<AnthropicContent> = Vec::new();
        match &msg.content {
            Content::Text(t) => {
                r.push(AnthropicContent::Text { text: t.clone() });
                assert(anthropic_views(r@) =~= anthropic_content(msg@.content));
            },
            Content::Image { mime_type, data } => {
                r.push(AnthropicContent::Image { media_type: mime_type.clone(), data: data.clone() });
                assert(anthropic_views(r@) =~= anthropic_content(msg@.content));
            },
            Content::Mixed(blocks) => {
                let mut i: usize = 0;
                while i < blocks.len()
                    invariant
                        i <= blocks@.len(),
                        msg@.content == ContentModel::Mixed(block_views(blocks@)),
                        anthropic_views(r@) == block_views(blocks@).take(i as int).map_values(
                            |b: ContentBlockModel| anthropic_block(b),
                        ),
                    decreases blocks.len() - i,
                {
                    let c = Self::convert_block(&blocks[i]);
                    let ghost before = r@;
                    r.push(c);
                    assert(anthropic_views(r@) =~= anthropic_views(before).push(c@));
                    assert(block_views(blocks@).take(i + 1) =~= block_views(blocks@).take(
                        i as int,
                    ).push(blocks@[i as int]@));
                    assert(anthropic_views(r@) =~= block_views(blocks@).take(i + 1).map_values(
                        |b: ContentBlockModel| anthropic_block(b),
                    ));
                    i += 1;
                }
                assert(block_views(blocks@).take(blocks@.len() as int) == block_views(blocks@));
            },
        }
        r
    }

    /// A block of mixed content at the API.
    fn convert_block(block: &ContentBlock) -> (r: AnthropicContent)
        ensures
            r@ == anthropic_block(block@),
    {
        match block.block_type {
            ContentBlockType::Text => {
                let text = match block.content.as_str() {
                    Some(s) => owned(s),
                    None => String::new(),
                };
                AnthropicContent::Text { text }
            },
            ContentBlockType::ImageUrl => {
                match block.content.get_str("url") {
                    Some(u) => AnthropicContent::Image { media_type: owned("image/jpeg"), data: u },
                    None => match block.content.get_str("data") {
                        Some(d) => {
                            let media_type = match block.content.get_str("mime_type") {
                                Some(m) => m,
                                None => owned("image/png"),
                            };
                            AnthropicContent::Image { media_type, data: d }
                        },
                        None => AnthropicContent::Text {
                            text: owned("[Unsupported image content]"),
                        },
                    },
                }
            },
        }
    }

    /// The messages at the API, one for each, in order.
    pub fn convert_messages(messages: &Vec<Message>) -> (r: Vec<AnthropicMessage>)
        ensures
            r@.len() == messages@.len(),
            forall|i: int|
                0 <= i < r@.len() ==> (#[trigger] r@[i])@ == anthropic_message(messages@[i]@),
            forall|i: int|
                0 <= i < r@.len() ==> ((#[trigger] r@[i]).role@ == "assistant"@ <==> messages@[i].role
                    == MessageRole::Ai) && (messages@[i].role != MessageRole::Ai ==> r@[i].role@
                    == "user"@),
    {
        let mut r: Vec<AnthropicMessage> = Vec::new();
        let mut i: usize = 0;
        while i < messages.len()
            invariant
                i <= messages@.len(),
                r@.len() == i,
                forall|k: int| 0 <= k < i ==> (#[trigger] r@[k])@ == anthropic_message(messages@[k]@),
            decreases messages.len() - i,
        {
            let m = &messages[i];
            let role = if m.role == MessageRole::Ai {
                owned("assistant")
            } else {
                owned("user")
            };
            let content = Self::convert_content(m);
            r.push(AnthropicMessage { role, content });
            i += 1;
        }
        assert forall|i: int| 0 <= i < r@.len() implies ((#[trigger] r@[i]).role@ == "assistant"@
            <==> messages@[i].role == MessageRole::Ai) && (messages@[i].role != MessageRole::Ai
            ==> r@[i].role@ == "user"@) by {
            law_anthropic_roles(messages@[i]@);
        }
        r
    }

    /// The request for the API: the non-system messages, the first
    /// system message as the system prompt when it is text, at most 4096
    /// tokens unless the request says otherwise, stop sequences only when
    /// there are some, and, with extended thinking, thinking on and the
    /// `output-128k-2025-02-19` beta.
    pub fn build_request(&self, request: &ModelRequest) -> (r: AnthropicRequest)
        ensures
            r.model@ == self@.model_id,
            r.messages@.len() == without_system(request@.messages).len(),
            forall|i: int|
                0 <= i < r.messages@.len() ==> (#[trigger] r.messages@[i])@ == anthropic_message(
                    without_system(request@.messages)[i],
                ),
            r.max_tokens == match request.max_tokens {
                Some(m) => m,
                None => 4096u32,
            },
            r.temperature == request.temperature,
            r.top_p == request.top_p,
            r.top_k == request.top_k,
            match r.stop_sequences {
                Some(s) => request.stop@.len() > 0 && views(s@) == views(request.stop@),
                None => request.stop@.len() == 0,
            },
            opt_view(r.system) == system_text(request@.messages),
            r.thinking == (if self@.thinking_enabled {
                Some(true)
            } else {
                None
            }),
            match r.betas {
                Some(b) => self@.thinking_enabled && views(b@) == seq!["output-128k-2025-02-19"@],
                None => !self@.thinking_enabled,
            },
    {
        let system = first_system_text(&request.messages);
        let kept = Self::non_system(&request.messages);
        let messages = Self::convert_messages(&kept);
        let stop_sequences = if request.stop.len() == 0 {
            None
        } else {
            Some(crate::text::clone_strings(&request.stop))
        };
        let betas = if self.thinking_enabled {
            let mut b: Vec<String> = Vec::new();
            b.push(owned("output-128k-2025-02-19"));
            assert(views(b@) =~= seq!["output-128k-2025-02-19"@]);
            Some(b)
        } else {
            None
        };
        AnthropicRequest {
            model: self.model_id.clone(),
            messages,
            max_tokens: match request.max_tokens {
                Some(m) => m,
                None => 4096,
            },
            temperature: request.temperature,
            top_p: request.top_p,
            top_k: request.top_k,
            stop_sequences,
            system,
            thinking: if self.thinking_enabled {
                Some(true)
            } else {
                None
            },
            betas,
        }
    }

    /// The messages that are not system messages, copied.
    fn non_system(messages: &Vec<Message>) -> (r: Vec<Message>)
        ensures
            message_views(r@) == without_system(message_views(messages@)),
    {
        let mut r: Vec<Message> = Vec::new();
        let mut i: usize = 0;
        while i < messages.len()
            invariant
                i <= messages@.len(),
                message_views(r@) == without_system(message_views(messages@.take(i as int))),
            decreases messages.len() - i,
        {
            assert(message_views(messages@.take(i + 1)).drop_last() == message_views(
                messages@.take(i as int),
            ));
            assert(message_views(messages@.take(i + 1)).last() == messages@[i as int]@);
            if messages[i].role != MessageRole::System {
                let ghost before = r@;
                r.push(messages[i].clone());
                assert(message_views(r@) =~= message_views(before).push(messages@[i as int]@));
            }
            i += 1;
        }
        assert(messages@.take(messages@.len() as int) == messages@);
        r
    }

    /// The response of the API as a `ModelResponse`: an AI message with
    /// the concatenated text blocks and the tool calls, the usage, and
    /// the stop reason.
    pub fn convert_response(resp: AnthropicResponse) -> (r: ModelResponse)
        requires
            usage_fits(resp.usage),
        ensures
            r.message@.tool_calls == anthropic_views(resp.content@).filter(
                |b: AnthropicContentModel| b is ToolUse,
            ).map_values(
                |b: AnthropicContentModel| ToolCallModel { id: b->ToolUse_0, name: b->ToolUse_1, arguments: b->ToolUse_2 },
            ),
            r.message@ == (MessageModel {
                tool_calls: response_calls(anthropic_views(resp.content@)),
                usage: usage_of(resp.usage),
                ..plain_message(
                    MessageRole::Ai,
                    ContentModel::Text(response_text(anthropic_views(resp.content@))),
                )
            }),
            r.usage == usage_of(resp.usage),
            opt_view(r.finish_reason) == opt_view(resp.stop_reason),
    {
        let content = &resp.content;
        let mut text = String::new();
        let mut calls: Vec<ToolCall> = Vec::new();
        let mut i: usize = 0;
        while i < content.len()
            invariant
                i <= content@.len(),
                text@ == response_text(anthropic_views(content@.take(i as int))),
                call_views(calls@) == response_calls(anthropic_views(content@.take(i as int))),
            decreases content.len() - i,
        {
            assert(anthropic_views(content@.take(i + 1)).drop_last() == anthropic_views(
                content@.take(i as int),
            ));
            assert(anthropic_views(content@.take(i + 1)).last() == content@[i as int]@);
            match &content[i] {
                AnthropicContent::Text { text: t } => {
                    crate::text::push_str(&mut text, t.as_str());
                },
                AnthropicContent::ToolUse { id, name, input } => {
                    let ghost before = calls@;
                    calls.push(ToolCall { id: id.clone(), name: name.clone(), arguments: input.clone() });
                    assert(call_views(calls@) =~= call_views(before).push(calls@[calls@.len() - 1]@));
                    assert(text@ + Seq::<char>::empty() == text@);
                },
                _ => {
                    assert(text@ + Seq::<char>::empty() == text@);
                },
            }
            i += 1;
        }
        assert(content@.take(content@.len() as int) == content@);
        let usage = match resp.usage {
            Some((a, b)) => Some(TokenUsage::new(a, b)),
            None => None,
        };
        proof {
            law_response_calls_are_tool_uses(anthropic_views(content@));
        }
        ModelResponse {
            message: Message {
                role: MessageRole::Ai,
                content: Content::Text(text),
                tool_calls: calls,
                tool_call_id: None,
                metadata: None,
                usage,
            },
            usage,
            finish_reason: resp.stop_reason,
        }
    }

    /// The stream events an event of the API's stream gives, and whether
    /// it ends the stream: a text piece and, when generation stopped, a
    /// complete message for a block delta; a complete message with the
    /// usage for a message delta; the end for the message's stop;
    /// nothing for the rest.
    pub fn stream_events(event: AnthropicStreamEvent) -> (r: (Vec<StreamEvent>, bool))
        requires
            event matches AnthropicStreamEvent::MessageDelta { input_tokens, output_tokens }
                ==> input_tokens + output_tokens <= u32::MAX,
        ensures
            event_views(r.0@) == anthropic_stream_events(event).0,
            r.1 == anthropic_stream_events(event).1,
            event matches AnthropicStreamEvent::MessageDelta { input_tokens, output_tokens } ==> {
                &&& r.0@.len() == 1
                &&& r.0@[0] is MessageComplete
                &&& r.0@[0]->message.usage == Some(
                    TokenUsage {
                        input_tokens,
                        output_tokens,
                        total_tokens: (input_tokens + output_tokens) as u32,
                    },
                )
                &&& !r.1
            },
    {
        let ghost spec_ev = anthropic_stream_events(event);
        let mut out: Vec<StreamEvent> = Vec::new();
        match event {
            AnthropicStreamEvent::ContentBlockDelta { text, stop_reason, .. } => {
                let ghost t = text@;
                if !text.as_str().is_empty() {
                    out.push(StreamEvent::TokenDelta { delta: text, index: 0 });
                }
                if stop_reason.is_some() {
                    out.push(StreamEvent::MessageComplete { message: empty_ai(None) });
                }
                assert(event_views(out@) =~= spec_ev.0);
                (out, false)
            },
            AnthropicStreamEvent::MessageDelta { input_tokens, output_tokens } => {
                let u = TokenUsage::new(input_tokens, output_tokens);
                out.push(StreamEvent::MessageComplete { message: empty_ai(Some(u)) });
                assert(event_views(out@) =~= spec_ev.0);
                (out, false)
            },
            AnthropicStreamEvent::MessageStop => {
                out.push(StreamEvent::End);
                assert(event_views(out@) =~= spec_ev.0);
                (out, true)
            },
            _ => {
                assert(event_views(out@) =~= spec_ev.0);
                (out, false)
            },
        }
    }
}


/// Each tool-use block of a response becomes a tool call with the
/// block's id, tool name and input (as the call's arguments), and each
/// tool call comes from such a block: one call per block, in order.
pub proof fn law_response_calls_carry_tool_uses(c: Seq<AnthropicContentModel>)
    ensures
        forall|k: int|
            0 <= k < c.len() ==> (#[trigger] c[k] matches AnthropicContentModel::ToolUse(id, name, input)
                ==> response_calls(c).contains(ToolCallModel { id, name, arguments: input })),
        forall|j: int|
            0 <= j < response_calls(c).len() ==> exists|k: int|
                0 <= k < c.len() && c[k] == AnthropicContentModel::ToolUse(
                    (#[trigger] response_calls(c)[j]).id,
                    response_calls(c)[j].name,
                    response_calls(c)[j].arguments,
                ),
    decreases c.len(),
{
    if c.len() > 0 {
        let p = c.drop_last();
        law_response_calls_carry_tool_uses(p);
        let rp = response_calls(p);
        let rc = response_calls(c);
        assert forall|k: int| 0 <= k < c.len() implies (#[trigger] c[k] matches AnthropicContentModel::ToolUse(
            id,
            name,
            input,
        ) ==> rc.contains(ToolCallModel { id, name, arguments: input })) by {
            if let AnthropicContentModel::ToolUse(id, name, input) = c[k] {
                let call = ToolCallModel { id, name, arguments: input };
                if k < p.len() {
                    assert(p[k] == c[k]);
                    assert(rp.contains(call));
                    let j = choose|j: int| 0 <= j < rp.len() && rp[j] == call;
                    match c.last() {
                        AnthropicContentModel::ToolUse(a, b, d) => {
                            assert(rc == rp.push(ToolCallModel { id: a, name: b, arguments: d }));
                            assert(rc[j] == call);
                        },
                        _ => {
                            assert(rc == rp);
                        },
                    }
                } else {
                    assert(c.last() == c[k]);
                    assert(rc == rp.push(call));
                    assert(rc[rp.len() as int] == call);
                }
            }
        }
        assert forall|j: int| 0 <= j < rc.len() implies exists|k: int|
            0 <= k < c.len() && c[k] == AnthropicContentModel::ToolUse(
                (#[trigger] rc[j]).id,
                rc[j].name,
                rc[j].arguments,
            ) by {
            match c.last() {
                AnthropicContentModel::ToolUse(a, b, d) => {
                    assert(rc == rp.push(ToolCallModel { id: a, name: b, arguments: d }));
                    if j < rp.len() {
                        assert(rc[j] == rp[j]);
                        let k = choose|k: int|
                            0 <= k < p.len() && p[k] == AnthropicContentModel::ToolUse(
                                rp[j].id,
                                rp[j].name,
                                rp[j].arguments,
                            );
                        assert(c[k] == p[k]);
                    } else {
                        assert(c[c.len() - 1] == c.last());
                    }
                },
                _ => {
                    assert(rc == rp);
                    let k = choose|k: int|
                        0 <= k < p.len() && p[k] == AnthropicContentModel::ToolUse(
                            rp[j].id,
                            rp[j].name,
                            rp[j].arguments,
                        );
                    assert(c[k] == p[k]);
                },
            }
        }
    }
}

/// The tool calls of a response are its tool-use blocks, in order, each
/// as a call with the block's id, tool name and input as arguments.
pub proof fn law_response_calls_are_tool_uses(c: Seq<AnthropicContentModel>)
    ensures
        response_calls(c) == c.filter(|b: AnthropicContentModel| b is ToolUse).map_values(
            |b: AnthropicContentModel| ToolCallModel { id: b->ToolUse_0, name: b->ToolUse_1, arguments: b->ToolUse_2 },
        ),
    decreases c.len(),
{
    let pred = |b: AnthropicContentModel| b is ToolUse;
    let f = |b: AnthropicContentModel| ToolCallModel { id: b->ToolUse_0, name: b->ToolUse_1, arguments: b->ToolUse_2 };
    if c.len() > 0 {
        let p = c.drop_last();
        law_response_calls_are_tool_uses(p);
        p.lemma_filter_push(c.last(), pred);
        assert(c =~= p.push(c.last()));
        if pred(c.last()) {
            assert(p.filter(pred).push(c.last()).map_values(f) =~= p.filter(pred).map_values(f).push(
                f(c.last()),
            ));
        }
    } else {
        assert(c.filter(pred) =~= Seq::<AnthropicContentModel>::empty());
    }
}

/// A message sent to the Messages API has role `assistant` exactly when
/// it is an AI message; every other message, tool results included, is
/// sent as `user`.
pub proof fn law_anthropic_roles(m: MessageModel)
    ensures
        m.role == MessageRole::Ai ==> anthropic_message(m).role == "assistant"@,
        m.role != MessageRole::Ai ==> anthropic_message(m).role == "user"@,
        m.role == MessageRole::Tool ==> anthropic_message(m).role == "user"@,
        anthropic_message(m).role == "assistant"@ <==> m.role == MessageRole::Ai,
{
    reveal_strlit("assistant");
    reveal_strlit("user");
    assert("assistant"@[0] != "user"@[0]);
}

/// A message's totals from the stream become a complete AI message whose
/// usage holds those input and output counts and their sum; the stream
/// goes on.
pub proof fn law_stream_usage(input_tokens: u32, output_tokens: u32)
    requires
        input_tokens + output_tokens <= u32::MAX,
    ensures
        ({
            let r = anthropic_stream_events(AnthropicStreamEvent::MessageDelta { input_tokens, output_tokens });
            &&& r.0.len() == 1
            &&& r.0[0] is MessageComplete
            &&& r.0[0]->MessageComplete_0.role == MessageRole::Ai
            &&& r.0[0]->MessageComplete_0.usage == Some(
                TokenUsage {
                    input_tokens,
                    output_tokens,
                    total_tokens: (input_tokens + output_tokens) as u32,
                },
            )
            &&& r.0[0]->MessageComplete_0.usage->0.total_tokens == input_tokens + output_tokens
            &&& !r.1
        }),
{
}

/// A streamed block piece with text gives that text first, as a token
/// delta; the message's stop ends the stream.
pub proof fn law_stream_text_and_stop(index: u32, text: String, stop_reason: Option<String>)
    ensures
        text@.len() > 0 ==> ({
            let r = anthropic_stream_events(
                AnthropicStreamEvent::ContentBlockDelta { index, text, stop_reason },
            );
            r.0.len() >= 1 && r.0[0] == StreamEventModel::TokenDelta(text@, 0) && !r.1
        }),
        anthropic_stream_events(AnthropicStreamEvent::MessageStop).1,
{
}

} // verus!
