use agent_harness::agents::chain::MiddlewareRoster;
use agent_harness::agents::builtin::{
    truncate_at_word_boundary, DanglingToolCallMiddleware, ThreadDataMiddleware, TitleMiddleware,
};
use agent_harness::agents::middleware::{MetadataValue, MiddlewareContext, MiddlewareHook};
use agent_harness::agents::run::{AgentRun, RunAction, RunEvent};
use agent_harness::agents::state::{AgentState, ThreadState};
use agent_harness::error::{HarnessError, MiddlewareError, ModelError};
use agent_harness::messages::Content;
use agent_harness::models::base::{Message, MessageRole, ModelResponse, ToolCall};

#[test]
fn test_middleware_hook_equality() {
    assert_eq!(MiddlewareHook::BeforeModel, MiddlewareHook::BeforeModel);
    assert_ne!(MiddlewareHook::BeforeModel, MiddlewareHook::AfterModel);
}

#[test]
fn test_middleware_context_builder() {
    let ctx = MiddlewareContext::new("test-thread", MiddlewareHook::BeforeModel)
        .with_metadata("key", MetadataValue::Text("value".to_string()));

    assert_eq!(ctx.thread_id, "test-thread");
    assert_eq!(ctx.hook, MiddlewareHook::BeforeModel);
    assert_eq!(ctx.metadata.get("key").and_then(|v| v.as_str()), Some("value"));
}

#[test]
fn test_dangling_tool_call_middleware_name() {
    let middleware = DanglingToolCallMiddleware::new();
    assert_eq!(middleware.name(), "dangling_tool_call");
}

#[test]
fn test_dangling_tool_call_middleware_hooks() {
    let middleware = DanglingToolCallMiddleware::new();
    assert_eq!(middleware.hooks(), &[MiddlewareHook::BeforeTool]);
}

#[test]
fn test_thread_data_middleware_name() {
    let middleware = ThreadDataMiddleware::new();
    assert_eq!(middleware.name(), "thread_data");
}

#[test]
fn test_thread_data_middleware_hooks() {
    let middleware = ThreadDataMiddleware::new();
    assert_eq!(middleware.hooks(), &[MiddlewareHook::BeforeModel]);
}

#[test]
fn test_thread_data_middleware_with_base_path() {
    let middleware = ThreadDataMiddleware::new().with_base_path("/tmp/test-threads");
    assert_eq!(middleware.base_path(), "/tmp/test-threads");
}

#[test]
fn test_title_middleware_name() {
    let middleware = TitleMiddleware::new();
    assert_eq!(middleware.name(), "title");
}

#[test]
fn test_title_middleware_hooks() {
    let middleware = TitleMiddleware::new();
    assert_eq!(middleware.hooks(), &[MiddlewareHook::AfterModel]);
}

#[test]
fn test_title_middleware_with_max_words() {
    let middleware = TitleMiddleware::new().with_max_words(5);
    assert_eq!(middleware.max_words(), 5);
}

#[test]
fn test_clean_title() {
    let middleware = TitleMiddleware::new();

    let title = middleware.clean_title("Hello, World! How are you today?");
    assert!(title.len() <= 50);
    assert_eq!(title, "Hello World How Are You Today");
}

#[test]
fn test_clean_title_with_special_chars() {
    let middleware = TitleMiddleware::new();

    let title = middleware.clean_title("Test@#$%Title!@#$%");
    assert_eq!(title, "Test Title");
}

#[test]
fn test_truncate_at_word_boundary() {
    let s = "Hello World Test String";
    let result = truncate_at_word_boundary(s, 15);
    assert_eq!(result, "Hello World");
}

#[test]
fn test_agent_state_default() {
    let state = AgentState::default();
    assert!(state.messages.is_empty());
}

#[test]
fn test_thread_state_default() {
    let state = ThreadState::default();
    assert!(state.messages.is_empty());
    assert!(state.thread_id.is_none());
    assert!(state.sandbox_id.is_none());
    assert!(state.title.is_none());
    assert!(state.artifacts.is_empty());
    assert!(state.viewed_images.is_empty());
}

fn ai_with_calls(text: &str, calls: Vec<ToolCall>) -> Message {
    Message {
        role: MessageRole::Ai,
        content: Content::text(text),
        tool_calls: calls,
        tool_call_id: None,
        metadata: None,
        usage: None,
    }
}

fn call(id: &str, name: &str) -> ToolCall {
    ToolCall { id: id.to_string(), name: name.to_string(), arguments: "{}".to_string() }
}

#[test]
fn dangling_call_gets_a_placeholder_answer() {
    let middleware = DanglingToolCallMiddleware::new();
    let mut state = ThreadState::default();
    state.messages.push(Message::human(Content::text("run it")));
    state.messages.push(ai_with_calls("", vec![call("c1", "bash"), call("c2", "ls"), call("c3", "cat")]));
    state.messages.push(Message::tool("c1", "bash", Content::text("done")));
    let mut ctx = MiddlewareContext::new("t", MiddlewareHook::BeforeTool).with_state(state);
    assert!(middleware.execute(&mut ctx).is_ok());
    let msgs = &ctx.state.messages;
    assert_eq!(msgs.len(), 5);
    assert_eq!(msgs[3].role, MessageRole::Tool);
    assert_eq!(msgs[3].tool_call_id.as_deref(), Some("c2"));
    assert_eq!(msgs[3].content.as_text(), Some("[Tool execution was interrupted]"));
    assert!(msgs[3].tool_calls.is_empty());
    assert_eq!(msgs[4].tool_call_id.as_deref(), Some("c3"));
    assert_eq!(
        ctx.metadata.get("dangling_calls_checked").and_then(|v| v.as_bool()),
        Some(true)
    );
}

#[test]
fn fix_dangling_tool_calls_without_ai_message_changes_nothing() {
    let middleware = DanglingToolCallMiddleware::new();
    let mut state = ThreadState::default();
    state.messages.push(Message::human(Content::text("hi")));
    assert!(middleware.fix_dangling_tool_calls(&mut state).is_ok());
    assert_eq!(state.messages.len(), 1);
}

#[test]
fn answered_calls_pass_the_check() {
    let middleware = DanglingToolCallMiddleware::new();
    let mut state = ThreadState::default();
    state.messages.push(ai_with_calls("", vec![call("c1", "bash")]));
    state.messages.push(Message::tool("c1", "bash", Content::text("done")));
    let mut ctx = MiddlewareContext::new("t", MiddlewareHook::BeforeTool).with_state(state);
    assert!(middleware.execute(&mut ctx).is_ok());
    assert_eq!(ctx.state.messages.len(), 2);
    assert_eq!(
        ctx.metadata.get("dangling_calls_checked").and_then(|v| v.as_bool()),
        Some(true)
    );
}

#[test]
fn thread_directories_are_under_the_base() {
    let middleware = ThreadDataMiddleware::new();
    let dirs = middleware.thread_directories("t1");
    assert_eq!(
        dirs,
        vec![
            ".deer-flow/threads/t1/user-data/workspace".to_string(),
            ".deer-flow/threads/t1/user-data/uploads".to_string(),
            ".deer-flow/threads/t1/user-data/outputs".to_string(),
        ]
    );
    let mut ctx = MiddlewareContext::new("t1", MiddlewareHook::BeforeModel)
        .with_metadata("old", MetadataValue::Bool(true));
    middleware.execute(&mut ctx);
    assert!(ctx.metadata.get("old").is_none());
    match ctx.metadata.get("thread_directories") {
        Some(MetadataValue::Object(fields)) => {
            assert_eq!(fields.len(), 3);
            assert_eq!(fields[0].0, "workspace");
            assert_eq!(fields[2].1, ".deer-flow/threads/t1/user-data/outputs");
        }
        other => panic!("unexpected: {:?}", other),
    }
    match middleware.directory_error("/x", "denied") {
        HarnessError::Middleware(MiddlewareError::ExecutionFailed(n, m)) => {
            assert_eq!(n, "thread_data");
            assert_eq!(m, "Failed to create directory /x: denied");
        }
        other => panic!("unexpected: {:?}", other),
    }
}

#[test]
fn title_comes_from_the_first_human_message() {
    let middleware = TitleMiddleware::new();
    let mut state = ThreadState::default();
    state.messages.push(Message::human(Content::text("what is rust?")));
    state.messages.push(ai_with_calls("A language.", vec![]));
    let mut ctx = MiddlewareContext::new("t", MiddlewareHook::AfterModel).with_state(state);
    assert!(middleware.execute(&mut ctx).is_ok());
    assert_eq!(ctx.state.title.as_deref(), Some("What Is Rust"));
    assert_eq!(
        ctx.metadata.get("generated_title").and_then(|v| v.as_str()),
        Some("What Is Rust")
    );
}

#[test]
fn no_title_before_an_exchange() {
    let middleware = TitleMiddleware::new();
    let mut state = ThreadState::default();
    state.messages.push(Message::human(Content::text("hello")));
    let mut ctx = MiddlewareContext::new("t", MiddlewareHook::AfterModel).with_state(state);
    assert_eq!(middleware.try_execute(&mut ctx).map(|r| r.is_ok()), Some(true));
    assert!(ctx.state.title.is_none());
    let empty = ThreadState::default();
    assert_eq!(middleware.generate_title(&empty).unwrap(), "New Thread");
}

#[test]
fn titles_keep_the_word_and_byte_limits() {
    let middleware = TitleMiddleware::new().with_max_words(3);
    assert_eq!(middleware.clean_title("one two three four five"), "One Two Three");
    let short = TitleMiddleware::new().with_max_chars(12);
    assert_eq!(short.clean_title("alpha beta gamma"), "Alpha Beta");
    assert_eq!(truncate_at_word_boundary("abcdefgh", 4), "abcd");
    assert_eq!(truncate_at_word_boundary("short", 40), "short");
    let narrow = TitleMiddleware::new().with_max_chars(1);
    assert!(narrow.try_clean_title("éé").is_none());
}

fn expect_hook(a: RunAction, hook: MiddlewareHook) -> ThreadState {
    match a {
        RunAction::RunHook { hook: h, state } => {
            assert_eq!(h, hook);
            state
        }
        other => panic!("expected hook {:?}, got {:?}", hook, other),
    }
}

#[test]
fn a_run_invokes_tools_and_answers_with_the_last_ai_text() {
    let (mut run, a) = AgentRun::start("t1", Some("Be brief.".to_string()), None, "hi");
    let s = expect_hook(a, MiddlewareHook::BeforeModel);
    assert_eq!(s.thread_id.as_deref(), Some("t1"));
    assert_eq!(s.messages.len(), 1);
    let a = run.step(RunEvent::HookDone { state: s });
    let request = match a {
        RunAction::InvokeModel { request } => request,
        other => panic!("unexpected {:?}", other),
    };
    assert_eq!(request.messages.len(), 2);
    assert_eq!(request.messages[0].role, MessageRole::System);
    assert_eq!(request.temperature, Some(700));
    assert_eq!(request.max_tokens, Some(4096));
    let response = ModelResponse {
        message: ai_with_calls("", vec![call("c1", "bash")]),
        usage: None,
        finish_reason: None,
    };
    let a = run.step(RunEvent::ModelResponded { response });
    let s = expect_hook(a, MiddlewareHook::AfterModel);
    let a = run.step(RunEvent::HookDone { state: s });
    let s = expect_hook(a, MiddlewareHook::BeforeTool);
    let a = run.step(RunEvent::HookDone { state: s });
    match a {
        RunAction::ExecuteTool { call, thread_id } => {
            assert_eq!(call.id, "c1");
            assert_eq!(thread_id, "t1");
        }
        other => panic!("unexpected {:?}", other),
    }
    let a = run.step(RunEvent::ToolDone { output: "ok".to_string() });
    let s = expect_hook(a, MiddlewareHook::AfterTool);
    assert_eq!(s.messages.last().unwrap().tool_call_id.as_deref(), Some("c1"));
    let a = run.step(RunEvent::HookDone { state: s });
    let s = expect_hook(a, MiddlewareHook::BeforeCompletion);
    let a = run.step(RunEvent::HookDone { state: s });
    assert!(matches!(a, RunAction::InvokeModel { .. }));
    let response = ModelResponse {
        message: ai_with_calls("All done.", vec![]),
        usage: None,
        finish_reason: None,
    };
    let a = run.step(RunEvent::ModelResponded { response });
    let s = expect_hook(a, MiddlewareHook::AfterModel);
    let a = run.step(RunEvent::HookDone { state: s });
    let s = expect_hook(a, MiddlewareHook::AfterCompletion);
    let a = run.step(RunEvent::HookDone { state: s });
    match a {
        RunAction::Finish { result: Ok(t) } => assert_eq!(t, "All done."),
        other => panic!("unexpected {:?}", other),
    }
    assert!(run.is_finished());
}

#[test]
fn a_run_without_rounds_has_no_answer() {
    let (mut run, a) = AgentRun::start("t", None, Some(0), "hi");
    let s = expect_hook(a, MiddlewareHook::BeforeModel);
    let a = run.step(RunEvent::HookDone { state: s });
    let s = expect_hook(a, MiddlewareHook::AfterCompletion);
    match run.step(RunEvent::HookDone { state: s }) {
        RunAction::Finish {
            result: Err(HarnessError::Model(ModelError::InvalidResponse(m))),
        } => assert_eq!(m, "No AI response generated"),
        other => panic!("unexpected {:?}", other),
    }
}

#[test]
fn a_failure_ends_the_run() {
    let (mut run, _) = AgentRun::start("t", None, None, "hi");
    match run.step(RunEvent::Failed { error: HarnessError::Other("boom".to_string()) }) {
        RunAction::Finish { result: Err(HarnessError::Other(m)) } => assert_eq!(m, "boom"),
        other => panic!("unexpected {:?}", other),
    }
    assert!(run.is_finished());
}

#[test]
fn roster_runs_middlewares_of_a_hook_in_order() {
    let mut roster = MiddlewareRoster::new();
    assert!(roster.is_empty());
    roster.add("a", &[MiddlewareHook::BeforeModel, MiddlewareHook::AfterModel]);
    roster.add("b", &[MiddlewareHook::AfterModel]);
    roster.add("c", &[MiddlewareHook::BeforeModel]);
    assert_eq!(roster.len(), 3);
    assert_eq!(roster.runs_for(MiddlewareHook::BeforeModel), vec![0, 2]);
    assert_eq!(roster.runs_for(MiddlewareHook::AfterModel), vec![0, 1]);
    assert!(roster.runs_for(MiddlewareHook::AfterTool).is_empty());
    assert_eq!(roster.position("b"), Some(1));
    assert_eq!(roster.position("z"), None);
    assert_eq!(roster.remove_by_name("a").unwrap(), 0);
    assert_eq!(roster.names(), vec!["b".to_string(), "c".to_string()]);
    assert_eq!(roster.runs_for(MiddlewareHook::BeforeModel), vec![1]);
    match roster.remove_by_name("a") {
        Err(HarnessError::Middleware(MiddlewareError::ExecutionFailed(n, m))) => {
            assert_eq!(n, "a");
            assert_eq!(m, "Middleware not found");
        }
        _ => panic!("expected an error"),
    }
    roster.clear();
    assert!(roster.is_empty());
}

#[test]
fn ascii_titles_are_capitalized_words() {
    let middleware = TitleMiddleware::new().with_max_words(3).with_max_chars(50);
    assert_eq!(
        middleware.try_clean_title("hello, world! how are you").as_deref(),
        Some("Hello World How")
    );
    assert_eq!(middleware.title_text("rust-lang 2024"), "Rust Lang 2024");
}
