//! The run of an agent on one user message, as a state machine.
//!
//! A run alternates work that the caller does (running the middlewares
//! of a hook, invoking the model, executing a tool) with decisions that
//! the run makes.  `AgentRun::start` gives the first action; the caller
//! performs each action and hands its outcome back to `AgentRun::step`,
//! which gives the next action, until a `Finish`.
//!
//! The run goes: the `BeforeModel` hook; then up to `max_iterations`
//! rounds of invoking the model (with the system prompt first), the
//! `AfterModel` hook, and, if the model called tools, for each call the
//! `BeforeTool` hook, the tool, and the `AfterTool` hook, then the
//! `BeforeCompletion` hook; a round whose response calls no tool ends
//! the rounds.  Then the `AfterCompletion` hook, and the answer: the
//! text of the last AI message.  Any failure ends the run with it.
use crate::agents::middleware::MiddlewareHook;
use crate::agents::state::{ThreadState, ThreadStateModel, empty_thread_state};
use crate::error::{HarnessError, ModelError};
use crate::messages::{Content, ContentModel, content_text};
use crate::models::base::{
    Message, MessageModel, MessageRole, ModelRequest, ModelRequestModel, ModelResponse,
    ModelResponseModel, ToolCall, ToolCallModel, call_views, clone_calls, clone_messages,
    message_views, opt_view, plain_message,
};
use crate::text::owned;
use vstd::prelude::*;

verus! {

/// Where a run stands: the outcome it waits for.
#[derive(Debug, Clone, Copy, PartialEq, Eq, Structural)]
pub enum RunStage {
    /// Waits for the `BeforeModel` hook.
    BeforeModel,
    /// Waits for the model's response.
    Model,
    /// Waits for the `AfterModel` hook.
    AfterModel,
    /// Waits for the `BeforeTool` hook.
    BeforeTool,
    /// Waits for the tool's output.
    Tool,
    /// Waits for the `AfterTool` hook.
    AfterTool,
    /// Waits for the `BeforeCompletion` hook.
    BeforeCompletion,
    /// Waits for the `AfterCompletion` hook.
    AfterCompletion,
    /// Has finished.
    Finished,
}

/// What the caller is to do next.
#[derive(Debug)]
pub enum RunAction {
    /// Run the middlewares of `hook` on a context holding `state`, and
    /// hand back the context's state.
    RunHook {
        /// The hook.
        hook: MiddlewareHook,
        /// The thread's state.
        state: ThreadState,
    },
    /// Invoke the model and hand back its response.
    InvokeModel {
        /// The request.
        request: ModelRequest,
    },
    /// Execute a tool call for the thread and hand back its output.
    ExecuteTool {
        /// The call.
        call: ToolCall,
        /// The thread.
        thread_id: String,
    },
    /// The run is over, with this result.
    Finish {
        /// The answer, or the error that ended the run.
        result: Result<String, HarnessError>,
    },
}

/// The outcome of an action, handed back to the run.
#[derive(Debug)]
pub enum RunEvent {
    /// The middlewares of the hook ran; the context's state after them.
    HookDone {
        /// The state.
        state: ThreadState,
    },
    /// The model responded.
    ModelResponded {
        /// The response.
        response: ModelResponse,
    },
    /// The tool ran; its output as text.
    ToolDone {
        /// The output.
        output: String,
    },
    /// The action failed.
    Failed {
        /// The error.
        error: HarnessError,
    },
}

/// The abstract value of an event.
pub enum RunEventModel {
    /// Hook done.
    HookDone(ThreadStateModel),
    /// Model responded.
    ModelResponded(ModelResponseModel),
    /// Tool done.
    ToolDone(Seq<char>),
    /// Failure.
    Failed(HarnessError),
}

impl View for RunEvent {
    type V = RunEventModel;

    open spec fn view(&self) -> RunEventModel {
        match self {
            RunEvent::HookDone { state } => RunEventModel::HookDone(state@),
            RunEvent::ModelResponded { response } => RunEventModel::ModelResponded(response@),
            RunEvent::ToolDone { output } => RunEventModel::ToolDone(output@),
            RunEvent::Failed { error } => RunEventModel::Failed(*error),
        }
    }
}

/// How a run ends.
pub enum RunOutcome {
    /// With this answer.
    Answer(Seq<char>),
    /// Without an AI message to answer with.
    NoAnswer,
    /// With this failure of an action.
    Failed(HarnessError),
}

/// The abstract value of an action.
pub enum RunActionModel {
    /// Run a hook on a state.
    RunHook(MiddlewareHook, ThreadStateModel),
    /// Invoke the model.
    InvokeModel(ModelRequestModel),
    /// Execute a tool call of a thread.
    ExecuteTool(ToolCallModel, Seq<char>),
    /// Finish.
    Finish(RunOutcome),
}

/// Whether the action is the one that the model describes.
pub open spec fn action_is(a: RunAction, m: RunActionModel) -> bool {
    match (a, m) {
        (RunAction::RunHook { hook, state }, RunActionModel::RunHook(h, s)) => hook == h && state@
            == s,
        (RunAction::InvokeModel { request }, RunActionModel::InvokeModel(r)) => request@ == r,
        (RunAction::ExecuteTool { call, thread_id }, RunActionModel::ExecuteTool(c, t)) => call@
            == c && thread_id@ == t,
        (RunAction::Finish { result }, RunActionModel::Finish(o)) => match (result, o) {
            (Ok(t), RunOutcome::Answer(a)) => t@ == a,
            (Err(e), RunOutcome::NoAnswer) => e matches HarnessError::Model(
                ModelError::InvalidResponse(m),
            ) && m@ == "No AI response generated"@,
            (Err(e), RunOutcome::Failed(f)) => e == f,
            _ => false,
        },
        _ => false,
    }
}

/// The abstract value of a run.
pub struct RunModel {
    /// The thread.
    pub thread_id: Seq<char>,
    /// The system prompt, if any.
    pub system_prompt: Option<Seq<char>>,
    /// The most rounds of model invocation.
    pub max_iterations: nat,
    /// The state the run holds (while a hook runs, the caller holds it).
    pub state: ThreadStateModel,
    /// Where the run stands.
    pub stage: RunStage,
    /// Rounds begun, that is, model invocations asked for.
    pub iterations: nat,
    /// Tool calls of the last response.
    pub pending: Seq<ToolCallModel>,
    /// The call being executed.
    pub next_call: nat,
    /// The answer taken when the rounds ended.
    pub answer: Option<Seq<char>>,
}

/// The text of the last AI message, if any.
pub open spec fn final_answer(msgs: Seq<MessageModel>) -> Option<Seq<char>>
    decreases msgs.len(),
{
    if msgs.len() == 0 {
        None
    } else if msgs.last().role == MessageRole::Ai {
        Some(content_text(msgs.last().content))
    } else {
        final_answer(msgs.drop_last())
    }
}

/// The request of a round: the state's messages, after the system
/// prompt if there is one, at temperature 0.7 and at most 4096 tokens.
pub open spec fn round_request(
    system_prompt: Option<Seq<char>>,
    msgs: Seq<MessageModel>,
) -> ModelRequestModel {
    ModelRequestModel {
        messages: match system_prompt {
            Some(p) => seq![plain_message(MessageRole::System, ContentModel::Text(p))] + msgs,
            None => msgs,
        },
        temperature: Some(700),
        max_tokens: Some(4096),
        top_p: None,
        top_k: None,
        stop: Seq::empty(),
    }
}

/// The message that carries a tool's output back to the model.
pub open spec fn tool_answer(output: Seq<char>, call_id: Seq<char>) -> MessageModel {
    MessageModel {
        tool_call_id: Some(call_id),
        ..plain_message(MessageRole::Tool, ContentModel::Text(output))
    }
}

/// `s` with one more message.
pub open spec fn with_message(s: ThreadStateModel, m: MessageModel) -> ThreadStateModel {
    ThreadStateModel { messages: s.messages.push(m), ..s }
}

/// Hands the state to the caller for a hook, waiting at `stage`.
pub open spec fn hand_over(r: RunModel, stage: RunStage, hook: MiddlewareHook) -> (
    RunModel,
    RunActionModel,
) {
    (
        RunModel { stage, state: empty_thread_state(), ..r },
        RunActionModel::RunHook(hook, r.state),
    )
}

/// Ends the rounds: takes the answer and runs `AfterCompletion`.
pub open spec fn complete(r: RunModel) -> (RunModel, RunActionModel) {
    hand_over(
        RunModel { answer: final_answer(r.state.messages), ..r },
        RunStage::AfterCompletion,
        MiddlewareHook::AfterCompletion,
    )
}

/// Begins a round if any is left, else ends the rounds.
pub open spec fn begin_round(r: RunModel) -> (RunModel, RunActionModel) {
    if r.iterations < r.max_iterations {
        (
            RunModel { stage: RunStage::Model, iterations: r.iterations + 1, ..r },
            RunActionModel::InvokeModel(round_request(r.system_prompt, r.state.messages)),
        )
    } else {
        complete(r)
    }
}

/// Whether the run can take the event where it stands.
pub open spec fn accepts(r: RunModel, e: RunEventModel) -> bool {
    r.stage != RunStage::Finished && match e {
        RunEventModel::Failed(_) => true,
        RunEventModel::ModelResponded(_) => r.stage == RunStage::Model,
        RunEventModel::ToolDone(_) => r.stage == RunStage::Tool,
        RunEventModel::HookDone(_) => r.stage != RunStage::Model && r.stage != RunStage::Tool,
    }
}

/// The next state of a run and its action, for an event it accepts.
pub open spec fn next(r: RunModel, e: RunEventModel) -> (RunModel, RunActionModel) {
    match e {
        RunEventModel::Failed(err) => (
            RunModel { stage: RunStage::Finished, ..r },
            RunActionModel::Finish(RunOutcome::Failed(err)),
        ),
        RunEventModel::ModelResponded(resp) => hand_over(
            RunModel {
                state: with_message(r.state, resp.message),
                pending: resp.message.tool_calls,
                next_call: 0,
                ..r
            },
            RunStage::AfterModel,
            MiddlewareHook::AfterModel,
        ),
        RunEventModel::ToolDone(out) => hand_over(
            RunModel {
                state: with_message(r.state, tool_answer(out, r.pending[r.next_call as int].id)),
                ..r
            },
            RunStage::AfterTool,
            MiddlewareHook::AfterTool,
        ),
        RunEventModel::HookDone(s) => {
            let r2 = RunModel { state: s, ..r };
            match r.stage {
                RunStage::BeforeModel => begin_round(r2),
                RunStage::AfterModel => if r.pending.len() == 0 {
                    complete(r2)
                } else {
                    hand_over(r2, RunStage::BeforeTool, MiddlewareHook::BeforeTool)
                },
                RunStage::BeforeTool => (
                    RunModel { stage: RunStage::Tool, ..r2 },
                    RunActionModel::ExecuteTool(r.pending[r.next_call as int], r.thread_id),
                ),
                RunStage::AfterTool => {
                    let r3 = RunModel { next_call: r.next_call + 1, ..r2 };
                    if r3.next_call < r.pending.len() {
                        hand_over(r3, RunStage::BeforeTool, MiddlewareHook::BeforeTool)
                    } else {
                        hand_over(r3, RunStage::BeforeCompletion, MiddlewareHook::BeforeCompletion)
                    }
                },
                RunStage::BeforeCompletion => begin_round(r2),
                _ => (
                    RunModel { stage: RunStage::Finished, state: empty_thread_state(), ..r },
                    RunActionModel::Finish(
                        match r.answer {
                            Some(t) => RunOutcome::Answer(t),
                            None => RunOutcome::NoAnswer,
                        },
                    ),
                ),
            }
        },
    }
}

/// What holds of a run at every step.
pub open spec fn run_inv(r: RunModel) -> bool {
    &&& r.iterations <= r.max_iterations
    &&& r.stage == RunStage::AfterModel ==> r.next_call == 0
    &&& (r.stage == RunStage::BeforeTool || r.stage == RunStage::Tool || r.stage
        == RunStage::AfterTool) ==> r.next_call < r.pending.len()
}

/// The run of an agent on one user message.
#[derive(Debug)]
pub struct AgentRun {
    thread_id: String,
    system_prompt: Option<String>,
    max_iterations: usize,
    state: ThreadState,
    stage: RunStage,
    iterations: usize,
    pending: Vec<ToolCall>,
    next_call: usize,
    answer: Option<String>,
}

impl View for AgentRun {
    type V = RunModel;

    closed spec fn view(&self) -> RunModel {
        RunModel {
            thread_id: self.thread_id@,
            system_prompt: opt_view(self.system_prompt),
            max_iterations: self.max_iterations as nat,
            state: self.state@,
            stage: self.stage,
            iterations: self.iterations as nat,
            pending: call_views(self.pending@),
            next_call: self.next_call as nat,
            answer: opt_view(self.answer),
        }
    }
}

impl AgentRun {
    /// Whether the run has finished.
    pub fn is_finished(&self) -> (r: bool)
        ensures
            r == (self@.stage == RunStage::Finished),
    {
        self.stage == RunStage::Finished
    }

    /// Starts the run of thread `thread_id` on `user_message`, with at
    /// most `max_iterations` rounds (10 when not given).  The first action
    /// runs the `BeforeModel` hook on a state holding the thread's id and
    /// the user's message.
    pub fn start(
        thread_id: &str,
        system_prompt: Option<String>,
        max_iterations: Option<usize>,
        user_message: &str,
    ) -> (r: (AgentRun, RunAction))
        ensures
            run_inv(r.0@),
            r.0@ == (RunModel {
                thread_id: thread_id@,
                system_prompt: opt_view(system_prompt),
                max_iterations: match max_iterations {
                    Some(m) => m as nat,
                    None => 10,
                },
                state: empty_thread_state(),
                stage: RunStage::BeforeModel,
                iterations: 0,
                pending: Seq::empty(),
                next_call: 0,
                answer: None,
            }),
            action_is(
                r.1,
                RunActionModel::RunHook(
                    MiddlewareHook::BeforeModel,
                    ThreadStateModel {
                        thread_id: Some(thread_id@),
                        messages: seq![
                            plain_message(MessageRole::Human, ContentModel::Text(user_message@)),
                        ],
                        ..empty_thread_state()
                    },
                ),
            ),
    {
        let max = match max_iterations {
            Some(m) => m,
            None => 10,
        };
        let mut state = ThreadState::default();
        state.thread_id = Some(owned(thread_id));
        state.messages.push(Message::human(Content::text(user_message)));
        assert(message_views(state.messages@) =~= seq![
            plain_message(MessageRole::Human, ContentModel::Text(user_message@)),
        ]);
        let run = AgentRun {
            thread_id: owned(thread_id),
            system_prompt,
            max_iterations: max,
            state: ThreadState::default(),
            stage: RunStage::BeforeModel,
            iterations: 0,
            pending: Vec::new(),
            next_call: 0,
            answer: None,
        };
        assert(call_views(run.pending@) =~= Seq::<ToolCallModel>::empty());
        (run, RunAction::RunHook { hook: MiddlewareHook::BeforeModel, state })
    }

    /// Takes the state out of the run for a hook, leaving an empty one.
    fn take_state(&mut self) -> (s: ThreadState)
        ensures
            s@ == old(self)@.state,
            final(self)@ == (RunModel { state: empty_thread_state(), ..old(self)@ }),
    {
        let mut s = ThreadState::default();
        std::mem::swap(&mut s, &mut self.state);
        s
    }

    /// The message list of a round's request.
    fn request(&self) -> (q: ModelRequest)
        ensures
            q@ == round_request(self@.system_prompt, self@.state.messages),
    {
        let mut msgs = clone_messages(&self.state.messages);
        match &self.system_prompt {
            Some(p) => {
                let ghost before = message_views(msgs@);
                msgs.insert(0, Message::system(Content::text(p.as_str())));
                assert(message_views(msgs@) =~= seq![
                    plain_message(MessageRole::System, ContentModel::Text(p@)),
                ] + before);
            },
            None => {},
        }
        let stop: Vec<String> = Vec::new();
        assert(crate::text::views(stop@) =~= Seq::<Seq<char>>::empty());
        ModelRequest {
            messages: msgs,
            temperature: Some(700),
            max_tokens: Some(4096),
            top_p: None,
            top_k: None,
            stop,
        }
    }

    /// Begins a round, or ends the rounds when none is left.
    fn begin_round(&mut self) -> (a: RunAction)
        requires
            run_inv(old(self)@),
        ensures
            run_inv(final(self)@),
            final(self)@ == begin_round(old(self)@).0,
            action_is(a, begin_round(old(self)@).1),
    {
        if self.iterations < self.max_iterations {
            let q = self.request();
            self.iterations = self.iterations + 1;
            self.stage = RunStage::Model;
            RunAction::InvokeModel { request: q }
        } else {
            self.complete()
        }
    }

    /// The text of the last AI message of `msgs`, if any.
    fn last_ai_text(msgs: &Vec<Message>) -> (r: Option<String>)
        ensures
            opt_view(r) == final_answer(message_views(msgs@)),
    {
        let mut i: usize = msgs.len();
        assert(msgs@.take(i as int) == msgs@);
        while i > 0
            invariant
                i <= msgs@.len(),
                final_answer(message_views(msgs@)) == final_answer(
                    message_views(msgs@.take(i as int)),
                ),
            decreases i,
        {
            assert(message_views(msgs@.take(i as int)).drop_last() == message_views(
                msgs@.take(i - 1),
            ));
            assert(message_views(msgs@.take(i as int)).last() == msgs@[i - 1]@);
            if msgs[i - 1].role == MessageRole::Ai {
                return Some(msgs[i - 1].content.to_string());
            }
            i -= 1;
        }
        None
    }

    /// Ends the rounds: takes the answer and runs `AfterCompletion`.
    fn complete(&mut self) -> (a: RunAction)
        requires
            run_inv(old(self)@),
        ensures
            run_inv(final(self)@),
            final(self)@ == complete(old(self)@).0,
            action_is(a, complete(old(self)@).1),
    {
        self.answer = Self::last_ai_text(&self.state.messages);
        self.stage = RunStage::AfterCompletion;
        let s = self.take_state();
        RunAction::RunHook { hook: MiddlewareHook::AfterCompletion, state: s }
    }

    /// Hands the state over for `hook`, waiting at `stage`.
    fn hand_over(&mut self, stage: RunStage, hook: MiddlewareHook) -> (a: RunAction)
        requires
            run_inv(RunModel { stage, ..old(self)@ }),
        ensures
            run_inv(final(self)@),
            final(self)@ == hand_over(old(self)@, stage, hook).0,
            action_is(a, hand_over(old(self)@, stage, hook).1),
    {
        self.stage = stage;
        let s = self.take_state();
        RunAction::RunHook { hook, state: s }
    }

    /// Takes the outcome of the last action and gives the next one.
    pub fn step(&mut self, event: RunEvent) -> (a: RunAction)
        requires
            run_inv(old(self)@),
            accepts(old(self)@, event@),
        ensures
            run_inv(final(self)@),
            final(self)@ == next(old(self)@, event@).0,
            action_is(a, next(old(self)@, event@).1),
    {
        let ghost r = self@;
        match event {
            RunEvent::Failed { error } => {
                self.stage = RunStage::Finished;
                RunAction::Finish { result: Err(error) }
            },
            RunEvent::ModelResponded { response } => {
                let message = response.message;
                self.pending = clone_calls(&message.tool_calls);
                self.next_call = 0;
                self.state.messages.push(message);
                assert(message_views(self.state.messages@) =~= r.state.messages.push(
                    response@.message,
                ));
                self.hand_over(RunStage::AfterModel, MiddlewareHook::AfterModel)
            },
            RunEvent::ToolDone { output } => {
                let id = self.pending[self.next_call].id.as_str();
                let ghost out = output@;
                let m = Message::tool(id, "", Content::Text(output));
                self.state.messages.push(m);
                assert(message_views(self.state.messages@) =~= r.state.messages.push(
                    tool_answer(out, r.pending[r.next_call as int].id),
                ));
                self.hand_over(RunStage::AfterTool, MiddlewareHook::AfterTool)
            },
            RunEvent::HookDone { state } => {
                self.state = state;
                match self.stage {
                    RunStage::BeforeModel => self.begin_round(),
                    RunStage::AfterModel => {
                        if self.pending.len() == 0 {
                            self.complete()
                        } else {
                            self.hand_over(RunStage::BeforeTool, MiddlewareHook::BeforeTool)
                        }
                    },
                    RunStage::BeforeTool => {
                        self.stage = RunStage::Tool;
                        let call = self.pending[self.next_call].clone();
                        RunAction::ExecuteTool { call, thread_id: self.thread_id.clone() }
                    },
                    RunStage::AfterTool => {
                        let n = self.pending.len();
                        assert(self.next_call < n);
                        self.next_call = self.next_call + 1;
                        if self.next_call < self.pending.len() {
                            self.hand_over(RunStage::BeforeTool, MiddlewareHook::BeforeTool)
                        } else {
                            self.hand_over(
                                RunStage::BeforeCompletion,
                                MiddlewareHook::BeforeCompletion,
                            )
                        }
                    },
                    RunStage::BeforeCompletion => self.begin_round(),
                    _ => {
                        self.stage = RunStage::Finished;
                        let _ = self.take_state();
                        let result = match &self.answer {
                            Some(t) => Ok(t.clone()),
                            None => Err(
                                HarnessError::Model(
                                    ModelError::InvalidResponse(owned("No AI response generated")),
                                ),
                            ),
                        };
                        RunAction::Finish { result }
                    },
                }
            },
        }
    }
}

/// Every step keeps the run's invariant: at most `max_iterations`
/// rounds begun, and, while tools run, a call to run.
pub proof fn lemma_step_keeps_invariant(r: RunModel, e: RunEventModel)
    requires
        run_inv(r),
        accepts(r, e),
    ensures
        run_inv(next(r, e).0),
{
}

/// The model is invoked at most `max_iterations` times in a run: each
/// `InvokeModel` begins one more round, no other action does, and the
/// rounds begun never exceed the limit.
pub proof fn law_model_invocations_bounded(r: RunModel, e: RunEventModel)
    requires
        run_inv(r),
        accepts(r, e),
    ensures
        next(r, e).1 is InvokeModel ==> next(r, e).0.iterations == r.iterations + 1,
        !(next(r, e).1 is InvokeModel) ==> next(r, e).0.iterations == r.iterations,
        next(r, e).0.iterations <= r.max_iterations,
{
}

/// A failed action ends the run with that failure.
pub proof fn law_failure_ends_run(r: RunModel, err: HarnessError)
    ensures
        next(r, RunEventModel::Failed(err)).0.stage == RunStage::Finished,
        next(r, RunEventModel::Failed(err)).1 == RunActionModel::Finish(RunOutcome::Failed(err)),
{
}

/// The answer of a run is the text of the last AI message of the state
/// in which its rounds ended (before the `AfterCompletion` hook), and
/// only the end of that hook gives it.
pub proof fn law_answer_is_last_ai_text(r: RunModel, e: RunEventModel)
    requires
        accepts(r, e),
    ensures
        next(r, e).1 matches RunActionModel::RunHook(h, s) ==> (h
            == MiddlewareHook::AfterCompletion ==> next(r, e).0.answer == final_answer(s.messages)
            && next(r, e).0.stage == RunStage::AfterCompletion),
        next(r, e).1 matches RunActionModel::Finish(RunOutcome::Answer(t)) ==> r.stage
            == RunStage::AfterCompletion && r.answer == Some(t),
        next(r, e).1 matches RunActionModel::Finish(RunOutcome::NoAnswer) ==> r.stage
            == RunStage::AfterCompletion && r.answer is None,
{
}

/// The tools run are the calls of the model's last response, in order,
/// and each output goes back to the model as a tool message answering
/// its call.
pub proof fn law_tool_outputs_answer_calls(r: RunModel, e: RunEventModel)
    requires
        run_inv(r),
        accepts(r, e),
    ensures
        next(r, e).1 matches RunActionModel::ExecuteTool(c, t) ==> c == r.pending[r.next_call as int]
            && t == r.thread_id && next(r, e).0.stage == RunStage::Tool,
        e matches RunEventModel::ToolDone(out) ==> next(r, e).1 == RunActionModel::RunHook(
            MiddlewareHook::AfterTool,
            with_message(r.state, tool_answer(out, r.pending[r.next_call as int].id)),
        ),
        e matches RunEventModel::ModelResponded(resp) ==> next(r, e).0.pending
            == resp.message.tool_calls && next(r, e).0.next_call == 0,
{
}

/// Every request puts the system prompt, when there is one, before the
/// thread's messages.
pub proof fn law_request_starts_with_system_prompt(r: RunModel, e: RunEventModel)
    requires
        accepts(r, e),
    ensures
        next(r, e).1 matches RunActionModel::InvokeModel(q) ==> q == round_request(
            r.system_prompt,
            match e {
                RunEventModel::HookDone(s) => s.messages,
                _ => r.state.messages,
            },
        ),
{
}

} // verus!
