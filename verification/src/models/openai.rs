//! The OpenAI provider: a model's settings, the request of the Chat
//! Completions API, the conversion of its response, and the events of
//! its stream.
//!
//! Sending the request and decoding JSON are the caller's part; the
//! library builds what is sent from a `ModelRequest` and turns what comes
//! back into a `ModelResponse` or stream events.
use crate::config::ModelConfig;
use crate::error::HarnessError;
use crate::messages::{
    Content, ContentBlock, ContentBlockModel, ContentBlockType, ContentModel, block_field,
    block_str, block_views,
};
use crate::models::base::{
    Message, MessageModel, MessageRole, ModelCapabilities, ModelRequest, ModelResponse,
    StreamEvent, StreamEventModel, TokenUsage, ToolCall, ToolCallModel, call_views, clone_opt,
    event_views, opt_view, plain_message,
};
use crate::models::provider::{
    capabilities_of, config_str, configured_capabilities, invalid_key, model_setting_str,
    resolve_api_key, resolved_key,
};
use crate::strmap::StrMap;
use crate::text::{concat4, owned, views};
use vstd::prelude::*;

verus! {

/// A part of multimodal content.
#[derive(Debug)]
pub struct ContentPart {
    /// `text` or `image_url`.
    pub part_type: String,
    /// The text, for a text part.
    pub text: Option<String>,
    /// The image's URL, for an image part.
    pub image_url: Option<String>,
}

/// The abstract value of a part: type, text, image URL.
pub struct ContentPartModel {
    /// The type.
    pub part_type: Seq<char>,
    /// The text.
    pub text: Option<Seq<char>>,
    /// The image URL.
    pub image_url: Option<Seq<char>>,
}

impl View for ContentPart {
    type V = ContentPartModel;

    open spec fn view(&self) -> ContentPartModel {
        ContentPartModel {
            part_type: self.part_type@,
            text: opt_view(self.text),
            image_url: opt_view(self.image_url),
        }
    }
}

/// The views of a list of parts.
pub open spec fn part_views(v: Seq<ContentPart>) -> Seq<ContentPartModel> {
    v.map_values(|p: ContentPart| p@)
}

/// The content of a message at the API.
#[derive(Debug)]
pub enum OpenAIContent {
    /// Plain text.
    Text(String),
    /// Parts.
    Parts(Vec<ContentPart>),
}

/// The abstract value of content.
pub enum OpenAIContentModel {
    /// Plain text.
    Text(Seq<char>),
    /// Parts.
    Parts(Seq<ContentPartModel>),
}

impl View for OpenAIContent {
    type V = OpenAIContentModel;

    open spec fn view(&self) -> OpenAIContentModel {
        match self {
            OpenAIContent::Text(t) => OpenAIContentModel::Text(t@),
            OpenAIContent::Parts(p) => OpenAIContentModel::Parts(part_views(p@)),
        }
    }
}

/// A tool call at the API.
#[derive(Debug)]
pub struct OpenAIToolCall {
    /// The call's id.
    pub id: String,
    /// Its type (`function`).
    pub call_type: String,
    /// The function's name.
    pub name: String,
    /// The arguments, as JSON text.
    pub arguments: String,
}

/// A message at the API.
#[derive(Debug)]
pub struct OpenAIMessage {
    /// The role.
    pub role: String,
    /// The content.
    pub content: OpenAIContent,
    /// Tool calls (never sent).
    pub tool_calls: Option<Vec<OpenAIToolCall>>,
    /// The call a tool message answers.
    pub tool_call_id: Option<String>,
}

/// Stop sequences: one, or several.
#[derive(Debug)]
pub enum StopSeq {
    /// One sequence.
    Single(String),
    /// Several.
    Multiple(Vec<String>),
}

/// A request of the Chat Completions API.  Temperature and top-p are in
/// thousandths.
#[derive(Debug)]
pub struct OpenAIRequest {
    /// The model.
    pub model: String,
    /// The messages.
    pub messages: Vec<OpenAIMessage>,
    /// Temperature, in thousandths.
    pub temperature: Option<u32>,
    /// Most tokens to generate.
    pub max_tokens: Option<u32>,
    /// Top-p, in thousandths.
    pub top_p: Option<u32>,
    /// Stop sequences.
    pub stop: Option<StopSeq>,
}

/// A choice of a response.
#[derive(Debug)]
pub struct Choice {
    /// The message's text.
    pub content: Option<String>,
    /// The message's tool calls.
    pub tool_calls: Option<Vec<OpenAIToolCall>>,
    /// Why generation finished.
    pub finish_reason: Option<String>,
}

/// A response of the Chat Completions API.
#[derive(Debug)]
pub struct OpenAIResponse {
    /// The response's id.
    pub id: String,
    /// Its choices.
    pub choices: Vec<Choice>,
    /// Prompt, completion and total tokens.
    pub usage: Option<(u32, u32, u32)>,
}

/// A choice of a streamed chunk.
#[derive(Debug)]
pub struct StreamChoice {
    /// A piece of text.
    pub content: Option<String>,
    /// Why generation finished.
    pub finish_reason: Option<String>,
}

/// The model a configuration names, through the OpenAI API.
#[derive(Debug)]
pub struct OpenAIModel {
    name: String,
    model_id: String,
    api_key: String,
    base_url: String,
    capabilities: ModelCapabilities,
}

/// The abstract value of a model.
pub struct OpenAIModelView {
    /// Its name.
    pub name: Seq<char>,
    /// The model's id at the API.
    pub model_id: Seq<char>,
    /// The API key.
    pub api_key: Seq<char>,
    /// The API's base URL.
    pub base_url: Seq<char>,
    /// Its capabilities.
    pub capabilities: ModelCapabilities,
}

impl View for OpenAIModel {
    type V = OpenAIModelView;

    closed spec fn view(&self) -> OpenAIModelView {
        OpenAIModelView {
            name: self.name@,
            model_id: self.model_id@,
            api_key: self.api_key@,
            base_url: self.base_url@,
            capabilities: self.capabilities,
        }
    }
}

/// The role of a message at the API.
pub open spec fn openai_role(r: MessageRole) -> Seq<char> {
    match r {
        MessageRole::Human => "user"@,
        MessageRole::Ai => "assistant"@,
        MessageRole::Tool => "tool"@,
        MessageRole::System => "system"@,
    }
}

/// A block of mixed content as a part.
pub open spec fn openai_part(b: ContentBlockModel) -> ContentPartModel {
    match b.block_type {
        ContentBlockType::Text => ContentPartModel {
            part_type: "text"@,
            text: block_str(b.content),
            image_url: None,
        },
        ContentBlockType::ImageUrl => ContentPartModel {
            part_type: "image_url"@,
            text: None,
            image_url: Some(
                match block_field(b.content, "url"@) {
                    Some(u) => u,
                    None => match block_field(b.content, "data"@) {
                        Some(d) => d,
                        None => Seq::empty(),
                    },
                },
            ),
        },
    }
}

/// A message's content at the API; an image goes as a data URL.
pub open spec fn openai_content(c: ContentModel) -> OpenAIContentModel {
    match c {
        ContentModel::Text(t) => OpenAIContentModel::Text(t),
        ContentModel::Image { mime_type, data } => OpenAIContentModel::Parts(
            seq![
                ContentPartModel {
                    part_type: "image_url"@,
                    text: None,
                    image_url: Some("data:"@ + mime_type + ";base64,"@ + data),
                },
            ],
        ),
        ContentModel::Mixed(blocks) => OpenAIContentModel::Parts(
            blocks.map_values(|b: ContentBlockModel| openai_part(b)),
        ),
    }
}

/// What `serde_json` makes of a text: parsed as a JSON value and
/// printed again, or nothing when it is not JSON.
pub uninterp spec fn json_reprinted(text: Seq<char>) -> Option<Seq<char>>;

/// `serde_json::from_str::<serde_json::Value>` and then
/// `Value::to_string`: the text parsed as JSON and printed compactly, or
/// `None` when it is not JSON.  The contract names the result.
#[verifier::external_body]
fn reprint_json(text: &str) -> (r: Option<String>)
    ensures
        opt_view(r) == json_reprinted(text@),
{
    match serde_json::from_str::<serde_json::Value>(text) {
        Ok(v) => Some(v.to_string()),
        Err(_) => None,
    }
}

/// The arguments of a call as the library holds them: the JSON text
/// reprinted, or an empty object when it is not JSON.
pub open spec fn call_arguments(text: Seq<char>) -> Seq<char> {
    match json_reprinted(text) {
        Some(t) => t,
        None => "{}"@,
    }
}

/// The text of a response's first choice, or nothing.
pub open spec fn first_content(choices: Seq<Choice>) -> Seq<char> {
    if choices.len() > 0 {
        match choices[0].content {
            Some(t) => t@,
            None => Seq::empty(),
        }
    } else {
        Seq::empty()
    }
}

/// The tool calls of a response's first choice.
pub open spec fn first_calls(choices: Seq<Choice>) -> Seq<ToolCallModel> {
    if choices.len() > 0 {
        match choices[0].tool_calls {
            Some(calls) => calls@.map_values(
                |c: OpenAIToolCall| ToolCallModel {
                    id: c.id@,
                    name: c.name@,
                    arguments: call_arguments(c.arguments@),
                },
            ),
            None => Seq::empty(),
        }
    } else {
        Seq::empty()
    }
}

/// Whether the usage's total of prompt and completion fits in 32 bits.
pub open spec fn openai_usage_fits(u: Option<(u32, u32, u32)>) -> bool {
    match u {
        Some((p, c, _)) => p + c <= u32::MAX,
        None => true,
    }
}

/// The usage a response reports: prompt and completion tokens, and
/// their sum.
pub open spec fn openai_usage(u: Option<(u32, u32, u32)>) -> Option<TokenUsage> {
    match u {
        Some((p, c, _)) => Some(
            TokenUsage { input_tokens: p, output_tokens: c, total_tokens: (p + c) as u32 },
        ),
        None => None,
    }
}

/// An AI message with empty text and nothing else.
pub open spec fn empty_ai_message() -> MessageModel {
    plain_message(MessageRole::Ai, ContentModel::Text(Seq::empty()))
}

/// The stream events of a streamed chunk: its first choice's text piece,
/// and a complete message when generation finished.
pub open spec fn chunk_events(choices: Seq<StreamChoice>) -> Seq<StreamEventModel> {
    if choices.len() > 0 {
        (match choices[0].content {
            Some(t) => seq![StreamEventModel::TokenDelta(t@, 0)],
            None => Seq::empty(),
        }) + (if choices[0].finish_reason is Some {
            seq![StreamEventModel::MessageComplete(empty_ai_message())]
        } else {
            Seq::empty()
        })
    } else {
        Seq::empty()
    }
}

impl OpenAIModel {
    /// The model a configuration describes, with `$NAME` API keys read
    /// from `env`.  It fails with `InvalidApiKey("openai")` when the
    /// settings hold no string `api_key` or name an unset variable.  The
    /// base URL defaults to `https://api.openai.com/v1`.
    pub fn new(config: &ModelConfig, env: &StrMap<String>) -> (r: Result<Self, HarnessError>)
        ensures
            match config_str(*config, "api_key"@) {
                Some(k) => match resolved_key(k, env@) {
                    Some(key) => r matches Ok(m) && m@ == (OpenAIModelView {
                        name: config.name@,
                        model_id: config.name@,
                        api_key: key,
                        base_url: match config_str(*config, "base_url"@) {
                            Some(u) => u,
                            None => "https://api.openai.com/v1"@,
                        },
                        capabilities: configured_capabilities(*config),
                    }),
                    None => r matches Err(e) && e matches HarnessError::Model(
                        crate::error::ModelError::InvalidApiKey(p),
                    ) && p@ == "openai"@,
                },
                None => r matches Err(e) && e matches HarnessError::Model(
                    crate::error::ModelError::InvalidApiKey(p),
                ) && p@ == "openai"@,
            },
    {
        let key = match model_setting_str(config, "api_key") {
            Some(k) => k,
            None => {
                return Err(invalid_key("openai"));
            },
        };
        let api_key = match resolve_api_key(key, env) {
            Some(k) => k,
            None => {
                return Err(invalid_key("openai"));
            },
        };
        let base_url = match model_setting_str(config, "base_url") {
            Some(u) => owned(u),
            None => owned("https://api.openai.com/v1"),
        };
        Ok(
            OpenAIModel {
                name: config.name.clone(),
                model_id: config.name.clone(),
                api_key,
                base_url,
                capabilities: capabilities_of(config),
            },
        )
    }

    /// The model's name.
    pub fn name(&self) -> (r: &str)
        ensures
            r@ == self@.name,
    {
        self.name.as_str()
    }

    /// The model's capabilities.
    pub fn capabilities(&self) -> (r: &ModelCapabilities)
        ensures
            *r == self@.capabilities,
    {
        &self.capabilities
    }

    /// The API key.
    pub fn api_key(&self) -> (r: &str)
        ensures
            r@ == self@.api_key,
    {
        self.api_key.as_str()
    }

    /// The API's base URL.
    pub fn base_url(&self) -> (r: &str)
        ensures
            r@ == self@.base_url,
    {
        self.base_url.as_str()
    }

    /// A message's content at the API.
    pub fn convert_content(content: &Content) -> (r: OpenAIContent)
        ensures
            r@ == openai_content(content@),
    {
        match content {
            Content::Text(t) => OpenAIContent::Text(t.clone()),
            Content::Image { mime_type, data } => {
                let url = concat4("data:", mime_type.as_str(), ";base64,", data.as_str());
                let mut parts: Vec<ContentPart> = Vec::new();
                parts.push(
                    ContentPart { part_type: owned("image_url"), text: None, image_url: Some(url) },
                );
                assert(part_views(parts@) =~= seq![
                    ContentPartModel {
                        part_type: "image_url"@,
                        text: None,
                        image_url: Some("data:"@ + mime_type@ + ";base64,"@ + data@),
                    },
                ]);
                OpenAIContent::Parts(parts)
            },
            Content::Mixed(blocks) => {
                let mut parts: Vec<ContentPart> = Vec::new();
                let mut i: usize = 0;
                while i < blocks.len()
                    invariant
                        i <= blocks@.len(),
                        part_views(parts@) == block_views(blocks@).take(i as int).map_values(
                            |b: ContentBlockModel| openai_part(b),
                        ),
                    decreases blocks.len() - i,
                {
                    let p = Self::convert_block(&blocks[i]);
                    let ghost before = parts@;
                    parts.push(p);
                    assert(part_views(parts@) =~= part_views(before).push(p@));
                    assert(block_views(blocks@).take(i + 1) =~= block_views(blocks@).take(
                        i as int,
                    ).push(blocks@[i as int]@));
                    assert(part_views(parts@) =~= block_views(blocks@).take(i + 1).map_values(
                        |b: ContentBlockModel| openai_part(b),
                    ));
                    i += 1;
                }
                assert(block_views(blocks@).take(blocks@.len() as int) == block_views(blocks@));
                OpenAIContent::Parts(parts)
            },
        }
    }

    /// A block of mixed content as a part.
    fn convert_block(block: &ContentBlock) -> (r: ContentPart)
        ensures
            r@ == openai_part(block@),
    {
        match block.block_type {
            ContentBlockType::Text => ContentPart {
                part_type: owned("text"),
                text: match block.content.as_str() {
                    Some(s) => Some(owned(s)),
                    None => None,
                },
                image_url: None,
            },
            ContentBlockType::ImageUrl => {
                let url = match block.content.get_str("url") {
                    Some(u) => u,
                    None => match block.content.get_str("data") {
                        Some(d) => d,
                        None => String::new(),
                    },
                };
                ContentPart { part_type: owned("image_url"), text: None, image_url: Some(url) }
            },
        }
    }

    /// A message at the API: its role, its content, and the call it
    /// answers; tool calls are not sent.
    pub fn convert_message(msg: &Message) -> (r: OpenAIMessage)
        ensures
            r.role@ == openai_role(msg.role),
            msg.role == MessageRole::Human ==> r.role@ == "user"@,
            msg.role == MessageRole::Ai ==> r.role@ == "assistant"@,
            msg.role == MessageRole::Tool ==> r.role@ == "tool"@,
            msg.role == MessageRole::System ==> r.role@ == "system"@,
            r.content@ == openai_content(msg@.content),
            r.tool_calls is None,
            opt_view(r.tool_call_id) == msg@.tool_call_id,
    {
        let role = match msg.role {
            MessageRole::Human => owned("user"),
            MessageRole::Ai => owned("assistant"),
            MessageRole::Tool => owned("tool"),
            MessageRole::System => owned("system"),
        };
        OpenAIMessage {
            role,
            content: Self::convert_content(&msg.content),
            tool_calls: None,
            tool_call_id: clone_opt(&msg.tool_call_id),
        }
    }

    /// The request for the API: every message converted, and the stop
    /// sequences as one when there is one, as a list when there are
    /// several.
    pub fn build_request(&self, request: &ModelRequest) -> (r: OpenAIRequest)
        ensures
            r.model@ == self@.model_id,
            r.messages@.len() == request.messages@.len(),
            forall|i: int|
                0 <= i < r.messages@.len() ==> (#[trigger] r.messages@[i]).role@ == openai_role(
                    request.messages@[i].role,
                ) && r.messages@[i].content@ == openai_content(request.messages@[i]@.content)
                    && r.messages@[i].tool_calls is None && opt_view(r.messages@[i].tool_call_id)
                    == request.messages@[i]@.tool_call_id,
            r.temperature == request.temperature,
            r.max_tokens == request.max_tokens,
            r.top_p == request.top_p,
            match r.stop {
                None => request.stop@.len() == 0,
                Some(StopSeq::Single(s)) => request.stop@.len() == 1 && s@ == request.stop@[0]@,
                Some(StopSeq::Multiple(v)) => request.stop@.len() > 1 && views(v@) == views(
                    request.stop@,
                ),
            },
    {
        let mut messages: Vec<OpenAIMessage> = Vec::new();
        let mut i: usize = 0;
        while i < request.messages.len()
            invariant
                i <= request.messages@.len(),
                messages@.len() == i,
                forall|k: int|
                    0 <= k < i ==> (#[trigger] messages@[k]).role@ == openai_role(
                        request.messages@[k].role,
                    ) && messages@[k].content@ == openai_content(request.messages@[k]@.content)
                        && messages@[k].tool_calls is None && opt_view(messages@[k].tool_call_id)
                        == request.messages@[k]@.tool_call_id,
            decreases request.messages.len() - i,
        {
            messages.push(Self::convert_message(&request.messages[i]));
            i += 1;
        }
        let stop = if request.stop.len() == 0 {
            None
        } else if request.stop.len() == 1 {
            Some(StopSeq::Single(request.stop[0].clone()))
        } else {
            Some(StopSeq::Multiple(crate::text::clone_strings(&request.stop)))
        };
        OpenAIRequest {
            model: self.model_id.clone(),
            messages,
            temperature: request.temperature,
            max_tokens: request.max_tokens,
            top_p: request.top_p,
            stop,
        }
    }

    /// The response of the API as a `ModelResponse`, from its first
    /// choice: an AI message with its text (empty when it has none) and
    /// its tool calls, whose arguments are reprinted JSON or `{}` when
    /// they are not JSON; the usage; and the finish reason.
    pub fn convert_response(resp: OpenAIResponse) -> (r: ModelResponse)
        requires
            openai_usage_fits(resp.usage),
        ensures
            r.message@ == (MessageModel {
                tool_calls: first_calls(resp.choices@),
                usage: openai_usage(resp.usage),
                ..plain_message(MessageRole::Ai, ContentModel::Text(first_content(resp.choices@)))
            }),
            r.usage == openai_usage(resp.usage),
            opt_view(r.finish_reason) == (if resp.choices@.len() > 0 {
                opt_view(resp.choices@[0].finish_reason)
            } else {
                None
            }),
    {
        let mut text = String::new();
        let mut calls: Vec<ToolCall> = Vec::new();
        let mut finish: Option<String> = None;
        if resp.choices.len() > 0 {
            let c = &resp.choices[0];
            match &c.content {
                Some(t) => {
                    text = t.clone();
                },
                None => {},
            }
            match &c.tool_calls {
                Some(tc) => {
                    let mut i: usize = 0;
                    while i < tc.len()
                        invariant
                            i <= tc@.len(),
                            call_views(calls@) == tc@.take(i as int).map_values(
                                |c: OpenAIToolCall| ToolCallModel {
                                    id: c.id@,
                                    name: c.name@,
                                    arguments: call_arguments(c.arguments@),
                                },
                            ),
                        decreases tc.len() - i,
                    {
                        let arguments = match reprint_json(tc[i].arguments.as_str()) {
                            Some(a) => a,
                            None => owned("{}"),
                        };
                        let ghost before = calls@;
                        calls.push(
                            ToolCall { id: tc[i].id.clone(), name: tc[i].name.clone(), arguments },
                        );
                        assert(call_views(calls@) =~= call_views(before).push(
                            calls@[calls@.len() - 1]@,
                        ));
                        assert(tc@.take(i + 1) =~= tc@.take(i as int).push(tc@[i as int]));
                        assert(call_views(calls@) =~= tc@.take(i + 1).map_values(
                            |c: OpenAIToolCall| ToolCallModel {
                                id: c.id@,
                                name: c.name@,
                                arguments: call_arguments(c.arguments@),
                            },
                        ));
                        i += 1;
                    }
                    assert(tc@.take(tc@.len() as int) == tc@);
                },
                None => {
                    assert(call_views(calls@) =~= Seq::<ToolCallModel>::empty());
                },
            }
            finish = clone_opt(&c.finish_reason);
        } else {
            assert(call_views(calls@) =~= Seq::<ToolCallModel>::empty());
        }
        let usage = match resp.usage {
            Some((p, c, _)) => Some(TokenUsage::new(p, c)),
            None => None,
        };
        ModelResponse {
            message: Message {
                role: MessageRole::Ai,
                content: Content::Text(text),
                tool_calls: calls,
                tool_call_id: None,
                metadata: None,
                usage,
            },
            usage,
            finish_reason: finish,
        }
    }

    /// The stream events of a streamed chunk: its first choice's text
    /// piece, and a complete message when generation finished.
    pub fn chunk_events(choices: &Vec<StreamChoice>) -> (r: Vec<StreamEvent>)
        ensures
            event_views(r@) == chunk_events(choices@),
            choices@.len() > 0 && choices@[0].content is Some ==> {
                &&& r@.len() >= 1
                &&& r@[0] is TokenDelta
                &&& r@[0]->delta@ == choices@[0].content->0@
                &&& r@[0]->index == 0
            },
    {
        proof {
            reveal_strlit("");
        }
        let mut out: Vec<StreamEvent> = Vec::new();
        if choices.len() > 0 {
            match &choices[0].content {
                Some(t) => {
                    out.push(StreamEvent::TokenDelta { delta: t.clone(), index: 0 });
                },
                None => {},
            }
            if choices[0].finish_reason.is_some() {
                let m = Message {
                    role: MessageRole::Ai,
                    content: Content::text(""),
                    tool_calls: crate::models::base::no_calls(),
                    tool_call_id: None,
                    metadata: None,
                    usage: None,
                };
                assert(""@ =~= Seq::<char>::empty());
                assert(m@ == empty_ai_message());
                out.push(StreamEvent::MessageComplete { message: m });
            }
        }
        assert(event_views(out@) =~= chunk_events(choices@));
        out
    }
}


/// Each role is sent to the Chat Completions API under its own name: a
/// human message as `user`, an AI message as `assistant`, a tool result
/// as `tool`, and a system message as `system`.
pub proof fn law_openai_roles(r: MessageRole)
    ensures
        r == MessageRole::Human ==> openai_role(r) == "user"@,
        r == MessageRole::Ai ==> openai_role(r) == "assistant"@,
        r == MessageRole::Tool ==> openai_role(r) == "tool"@,
        r == MessageRole::System ==> openai_role(r) == "system"@,
{
}

/// A streamed chunk whose first choice carries text gives that text
/// first, as a token delta at index 0; one that finishes gives a
/// complete AI message last; a chunk without choices gives nothing.
pub proof fn law_chunk_text_first(choices: Seq<StreamChoice>)
    ensures
        choices.len() > 0 && choices[0].content is Some ==> {
            &&& chunk_events(choices).len() >= 1
            &&& chunk_events(choices)[0] == StreamEventModel::TokenDelta(choices[0].content->0@, 0)
        },
        choices.len() > 0 && choices[0].finish_reason is Some ==> {
            &&& chunk_events(choices).len() >= 1
            &&& chunk_events(choices).last() is MessageComplete
            &&& chunk_events(choices).last()->MessageComplete_0.role == MessageRole::Ai
        },
        choices.len() == 0 ==> chunk_events(choices).len() == 0,
{
}

} // verus!
