//! Messages exchanged with models, requests, responses and stream events.
use crate::messages::{Content, ContentModel};
use crate::text::owned;
use vstd::prelude::*;

verus! {

/// Token usage information.
#[derive(Debug, Clone, Copy, PartialEq, Eq, Structural)]
pub struct TokenUsage {
    /// Input tokens consumed.
    pub input_tokens: u32,
    /// Output tokens generated.
    pub output_tokens: u32,
    /// Total tokens.
    pub total_tokens: u32,
}

impl TokenUsage {
    /// Usage with the given input and output counts; the total is their sum.
    pub fn new(input_tokens: u32, output_tokens: u32) -> (u: Self)
        requires
            input_tokens + output_tokens <= u32::MAX,
        ensures
            u.input_tokens == input_tokens,
            u.output_tokens == output_tokens,
            u.total_tokens == input_tokens + output_tokens,
    {
        TokenUsage { input_tokens, output_tokens, total_tokens: input_tokens + output_tokens }
    }
}

/// Model capabilities.
#[derive(Debug, Clone, Copy, PartialEq, Eq, Hash, Structural)]
pub struct ModelCapabilities {
    /// Supports extended thinking.
    pub thinking: bool,
    /// Supports vision input.
    pub vision: bool,
    /// Supports function calling.
    pub function_calling: bool,
    /// Supports streaming responses.
    pub streaming: bool,
}

impl ModelCapabilities {
    /// Capabilities with function calling and streaming, without thinking
    /// or vision.
    pub fn new() -> (c: Self)
        ensures
            c == (ModelCapabilities {
                thinking: false,
                vision: false,
                function_calling: true,
                streaming: true,
            }),
    {
        ModelCapabilities { thinking: false, vision: false, function_calling: true, streaming: true }
    }

    /// The same capabilities with thinking.
    pub fn with_thinking(self) -> (c: Self)
        ensures
            c == (ModelCapabilities { thinking: true, ..self }),
    {
        ModelCapabilities { thinking: true, ..self }
    }

    /// The same capabilities with vision.
    pub fn with_vision(self) -> (c: Self)
        ensures
            c == (ModelCapabilities { vision: true, ..self }),
    {
        ModelCapabilities { vision: true, ..self }
    }
}

impl Default for ModelCapabilities {
    fn default() -> (c: Self)
        ensures
            c == (ModelCapabilities {
                thinking: false,
                vision: false,
                function_calling: true,
                streaming: true,
            }),
    {
        ModelCapabilities::new()
    }
}

/// Message role.
#[derive(Debug, Clone, Copy, PartialEq, Eq, Structural)]
pub enum MessageRole {
    /// User message.
    Human,
    /// AI message.
    Ai,
    /// Tool message.
    Tool,
    /// System message.
    System,
}

/// A tool call in an AI message.
#[derive(Debug)]
pub struct ToolCall {
    /// Tool call ID.
    pub id: String,
    /// Tool name.
    pub name: String,
    /// Tool arguments, as JSON text.
    pub arguments: String,
}

/// The abstract value of a tool call.
pub struct ToolCallModel {
    /// Tool call ID.
    pub id: Seq<char>,
    /// Tool name.
    pub name: Seq<char>,
    /// Tool arguments, as JSON text.
    pub arguments: Seq<char>,
}

impl View for ToolCall {
    type V = ToolCallModel;

    open spec fn view(&self) -> ToolCallModel {
        ToolCallModel { id: self.id@, name: self.name@, arguments: self.arguments@ }
    }
}

impl Clone for ToolCall {
    fn clone(&self) -> (r: Self)
        ensures
            r@ == self@,
    {
        ToolCall { id: self.id.clone(), name: self.name.clone(), arguments: self.arguments.clone() }
    }
}

/// Message metadata.
#[derive(Debug)]
pub struct MessageMetadata {
    /// Message timestamp.
    pub timestamp: Option<i64>,
    /// Additional custom data: keys and JSON text values.
    pub custom: Vec<(String, String)>,
}

/// The abstract value of message metadata.
pub struct MessageMetadataModel {
    /// Message timestamp.
    pub timestamp: Option<i64>,
    /// Custom data.
    pub custom: Seq<(Seq<char>, Seq<char>)>,
}

impl View for MessageMetadata {
    type V = MessageMetadataModel;

    open spec fn view(&self) -> MessageMetadataModel {
        MessageMetadataModel {
            timestamp: self.timestamp,
            custom: crate::messages::pair_views(self.custom@),
        }
    }
}

impl Clone for MessageMetadata {
    fn clone(&self) -> (r: Self)
        ensures
            r@ == self@,
    {
        MessageMetadata {
            timestamp: self.timestamp,
            custom: crate::messages::clone_pairs(&self.custom),
        }
    }
}

/// A message in the conversation.
#[derive(Debug)]
pub struct Message {
    /// Message role.
    pub role: MessageRole,
    /// Message content.
    pub content: Content,
    /// Tool calls (for AI messages).
    pub tool_calls: Vec<ToolCall>,
    /// Tool call ID (for tool messages).
    pub tool_call_id: Option<String>,
    /// Additional metadata.
    pub metadata: Option<MessageMetadata>,
    /// Token usage (for AI messages).
    pub usage: Option<TokenUsage>,
}

/// The abstract value of a message.
pub struct MessageModel {
    /// Message role.
    pub role: MessageRole,
    /// Message content.
    pub content: ContentModel,
    /// Tool calls.
    pub tool_calls: Seq<ToolCallModel>,
    /// Tool call ID.
    pub tool_call_id: Option<Seq<char>>,
    /// Metadata.
    pub metadata: Option<MessageMetadataModel>,
    /// Token usage.
    pub usage: Option<TokenUsage>,
}

/// The view of an optional string.
pub open spec fn opt_view(o: Option<String>) -> Option<Seq<char>> {
    match o {
        Some(s) => Some(s@),
        None => None,
    }
}

/// The views of a list of tool calls.
pub open spec fn call_views(v: Seq<ToolCall>) -> Seq<ToolCallModel> {
    v.map_values(|c: ToolCall| c@)
}

/// The views of a list of messages.
pub open spec fn message_views(v: Seq<Message>) -> Seq<MessageModel> {
    v.map_values(|m: Message| m@)
}

impl View for Message {
    type V = MessageModel;

    open spec fn view(&self) -> MessageModel {
        MessageModel {
            role: self.role,
            content: self.content@,
            tool_calls: call_views(self.tool_calls@),
            tool_call_id: opt_view(self.tool_call_id),
            metadata: match self.metadata {
                Some(m) => Some(m@),
                None => None,
            },
            usage: self.usage,
        }
    }
}

/// A copy of an optional string.
pub fn clone_opt(o: &Option<String>) -> (r: Option<String>)
    ensures
        opt_view(r) == opt_view(*o),
{
    match o {
        Some(s) => Some(String::clone(s)),
        None => None,
    }
}

/// A copy of a list of tool calls.
pub fn clone_calls(v: &Vec<ToolCall>) -> (r: Vec<ToolCall>)
    ensures
        call_views(r@) == call_views(v@),
{
    let mut r: Vec<ToolCall> = Vec::new();
    let mut i: usize = 0;
    while i < v.len()
        invariant
            i <= v@.len(),
            r@.len() == i,
            call_views(r@) == call_views(v@.take(i as int)),
        decreases v.len() - i,
    {
        let c = v[i].clone();
        let ghost old_r = r@;
        r.push(c);
        assert forall|k: int| 0 <= k < i + 1 implies call_views(r@)[k] == call_views(
            v@.take(i + 1),
        )[k] by {
            if k < i {
                assert(call_views(old_r)[k] == call_views(v@.take(i as int))[k]);
            }
        }
        assert(call_views(r@) =~= call_views(v@.take(i + 1)));
        i += 1;
    }
    assert(v@.take(v@.len() as int) == v@);
    r
}

impl Clone for Message {
    fn clone(&self) -> (r: Self)
        ensures
            r@ == self@,
    {
        let metadata = match &self.metadata {
            Some(m) => Some(m.clone()),
            None => None,
        };
        Message {
            role: self.role,
            content: self.content.clone(),
            tool_calls: clone_calls(&self.tool_calls),
            tool_call_id: clone_opt(&self.tool_call_id),
            metadata,
            usage: self.usage,
        }
    }
}

/// A copy of a list of messages.
pub fn clone_messages(v: &Vec<Message>) -> (r: Vec<Message>)
    ensures
        message_views(r@) == message_views(v@),
{
    let mut r: Vec<Message> = Vec::new();
    let mut i: usize = 0;
    while i < v.len()
        invariant
            i <= v@.len(),
            r@.len() == i,
            message_views(r@) == message_views(v@.take(i as int)),
        decreases v.len() - i,
    {
        let c = v[i].clone();
        let ghost old_r = r@;
        r.push(c);
        assert forall|k: int| 0 <= k < i + 1 implies message_views(r@)[k] == message_views(
            v@.take(i + 1),
        )[k] by {
            if k < i {
                assert(message_views(old_r)[k] == message_views(v@.take(i as int))[k]);
            }
        }
        assert(message_views(r@) =~= message_views(v@.take(i + 1)));
        i += 1;
    }
    assert(v@.take(v@.len() as int) == v@);
    r
}

/// An empty list of tool calls.
pub fn no_calls() -> (v: Vec<ToolCall>)
    ensures
        call_views(v@) == Seq::<ToolCallModel>::empty(),
        v@.len() == 0,
{
    let v: Vec<ToolCall> = Vec::new();
    assert(call_views(v@) =~= Seq::<ToolCallModel>::empty());
    v
}

/// A message with the given role and content and nothing else.
pub open spec fn plain_message(role: MessageRole, content: ContentModel) -> MessageModel {
    MessageModel {
        role,
        content,
        tool_calls: Seq::empty(),
        tool_call_id: None,
        metadata: None,
        usage: None,
    }
}

impl Message {
    /// A human message.
    pub fn human(content: Content) -> (m: Self)
        ensures
            m@ == plain_message(MessageRole::Human, content@),
    {
        Message {
            role: MessageRole::Human,
            content,
            tool_calls: no_calls(),
            tool_call_id: None,
            metadata: None,
            usage: None,
        }
    }

    /// A system message.
    pub fn system(content: Content) -> (m: Self)
        ensures
            m@ == plain_message(MessageRole::System, content@),
    {
        Message {
            role: MessageRole::System,
            content,
            tool_calls: no_calls(),
            tool_call_id: None,
            metadata: None,
            usage: None,
        }
    }

    /// A tool message answering the call `tool_call_id`; the tool's name
    /// is not recorded.
    pub fn tool(tool_call_id: &str, tool_name: &str, content: Content) -> (m: Self)
        ensures
            m@ == (MessageModel {
                tool_call_id: Some(tool_call_id@),
                ..plain_message(MessageRole::Tool, content@)
            }),
    {
        Message {
            role: MessageRole::Tool,
            content,
            tool_calls: no_calls(),
            tool_call_id: Some(owned(tool_call_id)),
            metadata: None,
            usage: None,
        }
    }

    /// Whether this is a human message.
    pub fn is_human(&self) -> (r: bool)
        ensures
            r == (self.role == MessageRole::Human),
    {
        self.role == MessageRole::Human
    }

    /// Whether this is an AI message.
    pub fn is_ai(&self) -> (r: bool)
        ensures
            r == (self.role == MessageRole::Ai),
    {
        self.role == MessageRole::Ai
    }

    /// Whether this is a tool message.
    pub fn is_tool(&self) -> (r: bool)
        ensures
            r == (self.role == MessageRole::Tool),
    {
        self.role == MessageRole::Tool
    }
}

/// A request to a model.
///
/// Sampling parameters that providers take as fractions between 0 and 1
/// (`temperature`, `top_p`) are held in thousandths.
#[derive(Debug)]
pub struct ModelRequest {
    /// Messages to send to the model.
    pub messages: Vec<Message>,
    /// Temperature, in thousandths (700 stands for 0.7).
    pub temperature: Option<u32>,
    /// Maximum tokens to generate.
    pub max_tokens: Option<u32>,
    /// Top-p sampling, in thousandths.
    pub top_p: Option<u32>,
    /// Top-k sampling.
    pub top_k: Option<u32>,
    /// Stop sequences.
    pub stop: Vec<String>,
}

/// A model's response.
#[derive(Debug)]
pub struct ModelResponse {
    /// The response message.
    pub message: Message,
    /// Token usage, if reported.
    pub usage: Option<TokenUsage>,
    /// Why generation finished.
    pub finish_reason: Option<String>,
}

/// The abstract value of a request.
pub struct ModelRequestModel {
    /// Messages.
    pub messages: Seq<MessageModel>,
    /// Temperature, in thousandths.
    pub temperature: Option<u32>,
    /// Maximum tokens.
    pub max_tokens: Option<u32>,
    /// Top-p, in thousandths.
    pub top_p: Option<u32>,
    /// Top-k.
    pub top_k: Option<u32>,
    /// Stop sequences.
    pub stop: Seq<Seq<char>>,
}

impl View for ModelRequest {
    type V = ModelRequestModel;

    open spec fn view(&self) -> ModelRequestModel {
        ModelRequestModel {
            messages: message_views(self.messages@),
            temperature: self.temperature,
            max_tokens: self.max_tokens,
            top_p: self.top_p,
            top_k: self.top_k,
            stop: crate::text::views(self.stop@),
        }
    }
}

/// The abstract value of a response.
pub struct ModelResponseModel {
    /// The response message.
    pub message: MessageModel,
    /// Token usage.
    pub usage: Option<TokenUsage>,
    /// Why generation finished.
    pub finish_reason: Option<Seq<char>>,
}

impl View for ModelResponse {
    type V = ModelResponseModel;

    open spec fn view(&self) -> ModelResponseModel {
        ModelResponseModel {
            message: self.message@,
            usage: self.usage,
            finish_reason: opt_view(self.finish_reason),
        }
    }
}

/// An event of a streamed response.
#[derive(Debug)]
pub enum StreamEvent {
    /// A piece of generated text.
    TokenDelta {
        /// The text.
        delta: String,
        /// Index of the content block.
        index: u32,
    },
    /// A message is complete.
    MessageComplete {
        /// The message.
        message: Message,
    },
    /// The model calls tools.
    ToolCall {
        /// The calls.
        tool_calls: Vec<ToolCall>,
    },
    /// End of the stream.
    End,
    /// An error.
    Error {
        /// Its message.
        error: String,
    },
}

/// The abstract value of a stream event.
pub enum StreamEventModel {
    /// A piece of text at an index.
    TokenDelta(Seq<char>, u32),
    /// A complete message.
    MessageComplete(MessageModel),
    /// Tool calls.
    ToolCall(Seq<ToolCallModel>),
    /// The end.
    End,
    /// An error message.
    Error(Seq<char>),
}

impl View for StreamEvent {
    type V = StreamEventModel;

    open spec fn view(&self) -> StreamEventModel {
        match self {
            StreamEvent::TokenDelta { delta, index } => StreamEventModel::TokenDelta(delta@, *index),
            StreamEvent::MessageComplete { message } => StreamEventModel::MessageComplete(message@),
            StreamEvent::ToolCall { tool_calls } => StreamEventModel::ToolCall(call_views(tool_calls@)),
            StreamEvent::End => StreamEventModel::End,
            StreamEvent::Error { error } => StreamEventModel::Error(error@),
        }
    }
}

/// The views of a list of stream events.
pub open spec fn event_views(v: Seq<StreamEvent>) -> Seq<StreamEventModel> {
    v.map_values(|e: StreamEvent| e@)
}

} // verus!
