//! Middleware hooks and the context handed to a middleware.
//!
//! A middleware intercepts the run of an agent at one of six hook points
//! and may read and change the thread's state and a map of metadata.
use crate::agents::state::{ThreadState, ThreadStateModel, empty_thread_state};
use crate::messages::pair_views;
use crate::strmap::StrMap;
use crate::text::owned;
use vstd::prelude::*;

verus! {

/// The points at which a middleware can intercept a run.
#[derive(Debug, Clone, Copy, PartialEq, Eq, Hash, Structural)]
pub enum MiddlewareHook {
    /// Before the model is invoked.
    BeforeModel,
    /// After the model responds.
    AfterModel,
    /// Before a tool is executed.
    BeforeTool,
    /// After a tool is executed.
    AfterTool,
    /// Before the agent completes.
    BeforeCompletion,
    /// After the agent completes.
    AfterCompletion,
}

/// A metadata value: a JSON boolean, a JSON string, or a JSON object of
/// string-valued fields.
#[derive(Debug)]
pub enum MetadataValue {
    /// A boolean.
    Bool(bool),
    /// A string.
    Text(String),
    /// An object whose fields all hold strings, in order.
    Object(Vec<(String, String)>),
}

/// The abstract value of a metadata value.
pub enum MetadataValueModel {
    /// A boolean.
    Bool(bool),
    /// A string.
    Text(Seq<char>),
    /// An object of string fields.
    Object(Seq<(Seq<char>, Seq<char>)>),
}

impl View for MetadataValue {
    type V = MetadataValueModel;

    open spec fn view(&self) -> MetadataValueModel {
        match self {
            MetadataValue::Bool(b) => MetadataValueModel::Bool(*b),
            MetadataValue::Text(s) => MetadataValueModel::Text(s@),
            MetadataValue::Object(f) => MetadataValueModel::Object(pair_views(f@)),
        }
    }
}

impl MetadataValue {
    /// The string, if this value is a string.
    pub fn as_str(&self) -> (r: Option<&str>)
        ensures
            r matches Some(s) ==> self@ == MetadataValueModel::Text(s@),
            r is None ==> !(self@ is Text),
    {
        match self {
            MetadataValue::Text(s) => Some(s.as_str()),
            _ => None,
        }
    }

    /// The boolean, if this value is a boolean.
    pub fn as_bool(&self) -> (r: Option<bool>)
        ensures
            r matches Some(b) ==> self@ == MetadataValueModel::Bool(b),
            r is None ==> !(self@ is Bool),
    {
        match self {
            MetadataValue::Bool(b) => Some(*b),
            _ => None,
        }
    }
}

/// What a middleware sees when it runs.
#[derive(Debug)]
pub struct MiddlewareContext {
    /// Thread identifier.
    pub thread_id: String,
    /// Current state of the thread.
    pub state: ThreadState,
    /// The hook that triggered this execution.
    pub hook: MiddlewareHook,
    /// Additional metadata, a JSON object by its fields.
    pub metadata: StrMap<MetadataValue>,
}

/// The abstract value of a middleware context.
pub struct MiddlewareContextModel {
    /// Thread identifier.
    pub thread_id: Seq<char>,
    /// Current state.
    pub state: ThreadStateModel,
    /// The hook.
    pub hook: MiddlewareHook,
    /// Metadata fields.
    pub metadata: Map<Seq<char>, MetadataValueModel>,
}

impl View for MiddlewareContext {
    type V = MiddlewareContextModel;

    open spec fn view(&self) -> MiddlewareContextModel {
        MiddlewareContextModel {
            thread_id: self.thread_id@,
            state: self.state@,
            hook: self.hook,
            metadata: self.metadata@,
        }
    }
}

impl MiddlewareContext {
    /// A context for `thread_id` at `hook`, with an empty state and no
    /// metadata.
    pub fn new(thread_id: &str, hook: MiddlewareHook) -> (c: Self)
        ensures
            c@ == (MiddlewareContextModel {
                thread_id: thread_id@,
                state: empty_thread_state(),
                hook,
                metadata: Map::empty(),
            }),
    {
        MiddlewareContext {
            thread_id: owned(thread_id),
            state: ThreadState::default(),
            hook,
            metadata: StrMap::new(),
        }
    }

    /// The context with its state replaced.
    pub fn with_state(self, state: ThreadState) -> (c: Self)
        ensures
            c@ == (MiddlewareContextModel { state: state@, ..self@ }),
    {
        MiddlewareContext { state, ..self }
    }

    /// The context with metadata field `key` set to `value`.
    pub fn with_metadata(self, key: &str, value: MetadataValue) -> (c: Self)
        ensures
            c@ == (MiddlewareContextModel {
                metadata: self@.metadata.insert(key@, value@),
                ..self@
            }),
    {
        let mut c = self;
        c.metadata.insert(owned(key), value);
        c
    }
}

} // verus!
