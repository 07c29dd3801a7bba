//! Conversation state of an agent and of a thread.
use crate::models::base::{Message, MessageModel, message_views};
use crate::strmap::StrMap;
use vstd::prelude::*;

verus! {

/// Base agent state.
#[derive(Debug)]
pub struct AgentState {
    /// Messages in the conversation.
    pub messages: Vec<Message>,
}

impl Default for AgentState {
    fn default() -> (s: Self)
        ensures
            s.messages@.len() == 0,
    {
        AgentState { messages: Vec::new() }
    }
}

/// Image data for vision models.
#[derive(Debug, Clone)]
pub struct ImageData {
    /// MIME type.
    pub mime_type: String,
    /// Base64 encoded data.
    pub base64: String,
}

/// The abstract value of image data.
pub struct ImageDataModel {
    /// MIME type.
    pub mime_type: Seq<char>,
    /// Base64 encoded data.
    pub base64: Seq<char>,
}

impl View for ImageData {
    type V = ImageDataModel;

    open spec fn view(&self) -> ImageDataModel {
        ImageDataModel { mime_type: self.mime_type@, base64: self.base64@ }
    }
}

/// State of one conversation thread.
#[derive(Debug)]
pub struct ThreadState {
    /// Messages in the conversation.
    pub messages: Vec<Message>,
    /// Thread identifier.
    pub thread_id: Option<String>,
    /// Sandbox identifier.
    pub sandbox_id: Option<String>,
    /// Thread title.
    pub title: Option<String>,
    /// Artifacts produced.
    pub artifacts: Vec<String>,
    /// Viewed images, by name.
    pub viewed_images: StrMap<ImageData>,
}

/// The abstract value of a thread's state.
pub struct ThreadStateModel {
    /// Messages in the conversation.
    pub messages: Seq<MessageModel>,
    /// Thread identifier.
    pub thread_id: Option<Seq<char>>,
    /// Sandbox identifier.
    pub sandbox_id: Option<Seq<char>>,
    /// Thread title.
    pub title: Option<Seq<char>>,
    /// Artifacts produced.
    pub artifacts: Seq<Seq<char>>,
    /// Viewed images.
    pub viewed_images: Map<Seq<char>, ImageDataModel>,
}

impl View for ThreadState {
    type V = ThreadStateModel;

    open spec fn view(&self) -> ThreadStateModel {
        ThreadStateModel {
            messages: message_views(self.messages@),
            thread_id: crate::models::base::opt_view(self.thread_id),
            sandbox_id: crate::models::base::opt_view(self.sandbox_id),
            title: crate::models::base::opt_view(self.title),
            artifacts: crate::text::views(self.artifacts@),
            viewed_images: self.viewed_images@,
        }
    }
}

/// The state of a thread that has just started.
pub open spec fn empty_thread_state() -> ThreadStateModel {
    ThreadStateModel {
        messages: Seq::empty(),
        thread_id: None,
        sandbox_id: None,
        title: None,
        artifacts: Seq::empty(),
        viewed_images: Map::empty(),
    }
}

impl Default for ThreadState {
    fn default() -> (s: Self)
        ensures
            s@ == empty_thread_state(),
    {
        let s = ThreadState {
            messages: Vec::new(),
            thread_id: None,
            sandbox_id: None,
            title: None,
            artifacts: Vec::new(),
            viewed_images: StrMap::new(),
        };
        assert(message_views(s.messages@) =~= Seq::<MessageModel>::empty());
        assert(crate::text::views(s.artifacts@) =~= Seq::<Seq<char>>::empty());
        s
    }
}

} // verus!
