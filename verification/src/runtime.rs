//! The runtime context passed through a run: its thread, agent, request
//! id, settings and extra values.
use crate::ids::new_v4;
use crate::models::base::opt_view;
use crate::strmap::StrMap;
use crate::text::owned;
use vstd::prelude::*;

verus! {

/// Settings of a run.
#[derive(Debug)]
pub struct RuntimeMetadata {
    /// The model's name.
    pub model_name: Option<String>,
    /// Whether thinking is on.
    pub thinking_enabled: Option<bool>,
    /// The reasoning effort.
    pub reasoning_effort: Option<String>,
    /// Whether the agent plans first.
    pub is_plan_mode: Option<bool>,
    /// Whether subagents may be used.
    pub subagent_enabled: Option<bool>,
    /// The most subagents at once.
    pub max_concurrent_subagents: Option<usize>,
    /// Other settings.
    pub custom: StrMap<String>,
}

/// The abstract value of a run's settings.
pub struct RuntimeMetadataModel {
    /// Model name.
    pub model_name: Option<Seq<char>>,
    /// Thinking.
    pub thinking_enabled: Option<bool>,
    /// Reasoning effort.
    pub reasoning_effort: Option<Seq<char>>,
    /// Plan mode.
    pub is_plan_mode: Option<bool>,
    /// Subagents.
    pub subagent_enabled: Option<bool>,
    /// Most subagents.
    pub max_concurrent_subagents: Option<usize>,
    /// Other settings.
    pub custom: Map<Seq<char>, Seq<char>>,
}

impl View for RuntimeMetadata {
    type V = RuntimeMetadataModel;

    open spec fn view(&self) -> RuntimeMetadataModel {
        RuntimeMetadataModel {
            model_name: opt_view(self.model_name),
            thinking_enabled: self.thinking_enabled,
            reasoning_effort: opt_view(self.reasoning_effort),
            is_plan_mode: self.is_plan_mode,
            subagent_enabled: self.subagent_enabled,
            max_concurrent_subagents: self.max_concurrent_subagents,
            custom: self.custom@,
        }
    }
}

/// Settings with nothing set.
pub open spec fn no_settings() -> RuntimeMetadataModel {
    RuntimeMetadataModel {
        model_name: None,
        thinking_enabled: None,
        reasoning_effort: None,
        is_plan_mode: None,
        subagent_enabled: None,
        max_concurrent_subagents: None,
        custom: Map::empty(),
    }
}

impl Default for RuntimeMetadata {
    fn default() -> (m: Self)
        ensures
            m@ == no_settings(),
    {
        RuntimeMetadata {
            model_name: None,
            thinking_enabled: None,
            reasoning_effort: None,
            is_plan_mode: None,
            subagent_enabled: None,
            max_concurrent_subagents: None,
            custom: StrMap::new(),
        }
    }
}

impl RuntimeMetadata {
    /// Settings with nothing set.
    pub fn new() -> (m: Self)
        ensures
            m@ == no_settings(),
    {
        Self::default()
    }

    /// With the model's name.
    pub fn with_model_name(self, name: &str) -> (m: Self)
        ensures
            m@ == (RuntimeMetadataModel { model_name: Some(name@), ..self@ }),
    {
        RuntimeMetadata { model_name: Some(owned(name)), ..self }
    }

    /// With thinking on or off.
    pub fn with_thinking_enabled(self, enabled: bool) -> (m: Self)
        ensures
            m@ == (RuntimeMetadataModel { thinking_enabled: Some(enabled), ..self@ }),
    {
        RuntimeMetadata { thinking_enabled: Some(enabled), ..self }
    }

    /// With plan mode on or off.
    pub fn with_plan_mode(self, enabled: bool) -> (m: Self)
        ensures
            m@ == (RuntimeMetadataModel { is_plan_mode: Some(enabled), ..self@ }),
    {
        RuntimeMetadata { is_plan_mode: Some(enabled), ..self }
    }

    /// With a custom setting.
    pub fn with_custom(self, key: &str, value: &str) -> (m: Self)
        ensures
            m@ == (RuntimeMetadataModel { custom: self@.custom.insert(key@, value@), ..self@ }),
    {
        let mut m = self;
        m.custom.insert(owned(key), owned(value));
        m
    }
}

/// The context of a run.
#[derive(Debug)]
pub struct RuntimeContext {
    /// The thread.
    pub thread_id: Option<String>,
    /// The agent.
    pub agent_name: Option<String>,
    /// The request's id, fresh for each context.
    pub request_id: uuid::Uuid,
    /// The run's settings.
    pub metadata: RuntimeMetadata,
    /// Extra values.
    pub extra: StrMap<String>,
}

impl RuntimeContext {
    /// A context with a fresh request id and nothing else set.
    pub fn new() -> (c: Self)
        ensures
            c.thread_id is None,
            c.agent_name is None,
            c.metadata@ == no_settings(),
            c.extra@ == Map::<Seq<char>, Seq<char>>::empty(),
    {
        RuntimeContext {
            thread_id: None,
            agent_name: None,
            request_id: new_v4(),
            metadata: RuntimeMetadata::new(),
            extra: StrMap::new(),
        }
    }

    /// A context for a thread.
    pub fn with_thread_id(thread_id: &str) -> (c: Self)
        ensures
            opt_view(c.thread_id) == Some(thread_id@),
            c.agent_name is None,
            c.metadata@ == no_settings(),
            c.extra@ == Map::<Seq<char>, Seq<char>>::empty(),
    {
        RuntimeContext { thread_id: Some(owned(thread_id)), ..Self::new() }
    }

    /// The thread, which must be set.
    pub fn require_thread_id(&self) -> (r: &str)
        requires
            self.thread_id is Some,
        ensures
            Some(r@) == opt_view(self.thread_id),
    {
        self.thread_id.as_ref().expect("thread_id is required but not set").as_str()
    }

    /// With the agent's name.
    pub fn with_agent_name(self, name: &str) -> (c: Self)
        ensures
            opt_view(c.agent_name) == Some(name@),
            opt_view(c.thread_id) == opt_view(self.thread_id),
            c.request_id == self.request_id,
            c.metadata@ == self.metadata@,
            c.extra@ == self.extra@,
    {
        RuntimeContext { agent_name: Some(owned(name)), ..self }
    }

    /// With other settings.
    pub fn with_metadata(self, metadata: RuntimeMetadata) -> (c: Self)
        ensures
            c.metadata@ == metadata@,
            opt_view(c.agent_name) == opt_view(self.agent_name),
            opt_view(c.thread_id) == opt_view(self.thread_id),
            c.request_id == self.request_id,
            c.extra@ == self.extra@,
    {
        RuntimeContext { metadata, ..self }
    }

    /// With an extra value.
    pub fn with_extra(self, key: &str, value: &str) -> (c: Self)
        ensures
            c.extra@ == self.extra@.insert(key@, value@),
            opt_view(c.agent_name) == opt_view(self.agent_name),
            opt_view(c.thread_id) == opt_view(self.thread_id),
            c.request_id == self.request_id,
            c.metadata@ == self.metadata@,
    {
        let mut c = self;
        c.extra.insert(owned(key), owned(value));
        c
    }
}

impl Default for RuntimeContext {
    fn default() -> (c: Self)
        ensures
            c.thread_id is None,
            c.agent_name is None,
            c.metadata@ == no_settings(),
            c.extra@ == Map::<Seq<char>, Seq<char>>::empty(),
    {
        Self::new()
    }
}

/// A new context, to share.
pub fn shared_context() -> (c: std::sync::Arc<RuntimeContext>)
    ensures
        c.thread_id is None,
        c.agent_name is None,
{
    std::sync::Arc::new(RuntimeContext::new())
}

/// A new context for a thread, to share.
pub fn shared_context_with_thread(thread_id: &str) -> (c: std::sync::Arc<RuntimeContext>)
    ensures
        opt_view(c.thread_id) == Some(thread_id@),
        c.agent_name is None,
{
    std::sync::Arc::new(RuntimeContext::with_thread_id(thread_id))
}

} // verus!
