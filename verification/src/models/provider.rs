//! What the model providers share: reading a model's settings, resolving
//! its API key against the environment, the errors of a call to a
//! provider's API, and the messages of a request without system ones.
use crate::config::{ModelConfig, Settings, setting_str, setting_bool};
use crate::error::{HarnessError, ModelError};
use crate::messages::ContentModel;
use crate::models::base::{Message, MessageModel, MessageRole, ModelCapabilities, message_views};
use crate::strmap::StrMap;
use crate::text::{concat2, concat3, concat4, owned};
use vstd::prelude::*;

verus! {

/// The string setting `key` of a model, if it has settings and that
/// setting is a string.
pub open spec fn config_str(config: ModelConfig, key: Seq<char>) -> Option<Seq<char>> {
    match config.config {
        Some(s) => setting_str(s@, key),
        None => None,
    }
}

/// The boolean setting `key` of a model.
pub open spec fn config_bool(config: ModelConfig, key: Seq<char>) -> Option<bool> {
    match config.config {
        Some(s) => setting_bool(s@, key),
        None => None,
    }
}

/// The string setting `key` of a model.
pub fn model_setting_str<'a>(config: &'a ModelConfig, key: &str) -> (r: Option<&'a str>)
    ensures
        match r {
            Some(s) => config_str(*config, key@) == Some(s@),
            None => config_str(*config, key@) is None,
        },
{
    match &config.config {
        Some(s) => s.get_str(key),
        None => None,
    }
}

/// The boolean setting `key` of a model.
pub fn model_setting_bool(config: &ModelConfig, key: &str) -> (r: Option<bool>)
    ensures
        r == config_bool(*config, key@),
{
    match &config.config {
        Some(s) => s.get_bool(key),
        None => None,
    }
}

/// An API key as configured: `$NAME` stands for the value of the
/// environment variable `NAME` (none when it is not set); anything else
/// is the key itself.
pub open spec fn resolved_key(key: Seq<char>, env: Map<Seq<char>, Seq<char>>) -> Option<Seq<char>> {
    if key.len() > 0 && key[0] == '$' {
        if env.contains_key(key.drop_first()) {
            Some(env[key.drop_first()])
        } else {
            None
        }
    } else {
        Some(key)
    }
}

/// Resolves an API key against `env`.
pub fn resolve_api_key(key: &str, env: &StrMap<String>) -> (r: Option<String>)
    ensures
        match r {
            Some(k) => resolved_key(key@, env@) == Some(k@),
            None => resolved_key(key@, env@) is None,
        },
{
    let cs = crate::text::chars_of(key);
    if cs.len() > 0 && cs[0] == '$' {
        let name = crate::text::string_of_range(&cs, 1, cs.len());
        assert(name@ =~= key@.drop_first());
        match env.get(name.as_str()) {
            Some(v) => Some(v.clone()),
            None => None,
        }
    } else {
        Some(owned(key))
    }
}

/// The capabilities a model's configuration states: thinking and vision
/// as configured, with function calling and streaming.
pub open spec fn configured_capabilities(config: ModelConfig) -> ModelCapabilities {
    ModelCapabilities {
        thinking: config.supports_thinking,
        vision: config.supports_vision,
        function_calling: true,
        streaming: true,
    }
}

/// The capabilities of a configured model.
pub fn capabilities_of(config: &ModelConfig) -> (c: ModelCapabilities)
    ensures
        c == configured_capabilities(*config),
{
    let mut c = ModelCapabilities::new();
    if config.supports_thinking {
        c = c.with_thinking();
    }
    if config.supports_vision {
        c = c.with_vision();
    }
    c
}

/// The error of a missing or unresolvable API key of `provider`.
pub fn invalid_key(provider: &str) -> (e: HarnessError)
    ensures
        e matches HarnessError::Model(ModelError::InvalidApiKey(p)) && p@ == provider@,
{
    HarnessError::Model(ModelError::InvalidApiKey(owned(provider)))
}

/// The error of a request that could not be sent to `label`'s API.
pub fn request_failed(label: &str, detail: &str) -> (e: HarnessError)
    ensures
        e matches HarnessError::Model(ModelError::InvocationFailed(m)) && m@ == label@
            + " API request failed: "@ + detail@,
{
    HarnessError::Model(
        ModelError::InvocationFailed(concat3(label, " API request failed: ", detail)),
    )
}

/// The error of a response body that could not be read.
pub fn read_failed(detail: &str) -> (e: HarnessError)
    ensures
        e matches HarnessError::Model(ModelError::InvocationFailed(m)) && m@
            == "Failed to read response body: "@ + detail@,
{
    HarnessError::Model(
        ModelError::InvocationFailed(concat2("Failed to read response body: ", detail)),
    )
}

/// The error of a response with a failure status, with the status as
/// text and the body.
pub fn api_error(label: &str, status: &str, body: &str) -> (e: HarnessError)
    ensures
        e matches HarnessError::Model(ModelError::InvocationFailed(m)) && m@ == label@
            + " API error ("@ + status@ + "): "@ + body@,
{
    let a = concat3(label, " API error (", status);
    HarnessError::Model(ModelError::InvocationFailed(concat3(a.as_str(), "): ", body)))
}

/// The error of a response that could not be parsed.
pub fn parse_failed(label: &str, detail: &str) -> (e: HarnessError)
    ensures
        e matches HarnessError::Model(ModelError::InvalidResponse(m)) && m@ == "Failed to parse "@
            + label@ + " response: "@ + detail@,
{
    HarnessError::Model(
        ModelError::InvalidResponse(concat4("Failed to parse ", label, " response: ", detail)),
    )
}

/// The error of a broken stream.
pub fn stream_failed(detail: &str) -> (e: HarnessError)
    ensures
        e matches HarnessError::Model(ModelError::StreamError(m)) && m@ == "Stream error: "@
            + detail@,
{
    HarnessError::Model(ModelError::StreamError(concat2("Stream error: ", detail)))
}

/// The error of a stream event that could not be parsed.
pub fn event_parse_failed(detail: &str) -> (e: HarnessError)
    ensures
        e matches HarnessError::Model(ModelError::InvalidResponse(m)) && m@
            == "Failed to parse stream event: "@ + detail@,
{
    HarnessError::Model(
        ModelError::InvalidResponse(concat2("Failed to parse stream event: ", detail)),
    )
}

/// The messages that are not system messages, in order.
pub open spec fn without_system(msgs: Seq<MessageModel>) -> Seq<MessageModel>
    decreases msgs.len(),
{
    if msgs.len() == 0 {
        Seq::empty()
    } else if msgs.last().role == MessageRole::System {
        without_system(msgs.drop_last())
    } else {
        without_system(msgs.drop_last()).push(msgs.last())
    }
}

/// The text of the first system message, if that message is text.
pub open spec fn system_text(msgs: Seq<MessageModel>) -> Option<Seq<char>>
    decreases msgs.len(),
{
    if msgs.len() == 0 {
        None
    } else if msgs[0].role == MessageRole::System {
        match msgs[0].content {
            ContentModel::Text(t) => Some(t),
            _ => None,
        }
    } else {
        system_text(msgs.drop_first())
    }
}

/// The text of the first system message, if it is text.
pub fn first_system_text(msgs: &Vec<Message>) -> (r: Option<String>)
    ensures
        match r {
            Some(t) => system_text(message_views(msgs@)) == Some(t@),
            None => system_text(message_views(msgs@)) is None,
        },
{
    let mut i: usize = 0;
    assert(message_views(msgs@).skip(0) == message_views(msgs@));
    while i < msgs.len()
        invariant
            i <= msgs@.len(),
            system_text(message_views(msgs@)) == system_text(message_views(msgs@).skip(i as int)),
        decreases msgs.len() - i,
    {
        let ghost rest = message_views(msgs@).skip(i as int);
        assert(rest[0] == msgs@[i as int]@);
        assert(rest.drop_first() == message_views(msgs@).skip(i + 1));
        if msgs[i].role == MessageRole::System {
            return match msgs[i].content.as_text() {
                Some(t) => Some(owned(t)),
                None => None,
            };
        }
        i += 1;
    }
    None
}

} // verus!
