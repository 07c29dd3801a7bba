use agent_harness::error::HarnessError;
use agent_harness::subagents::{AgentDefinition, AgentRegistry, SubagentExecutor, TaskStatus};
use std::sync::Arc;

#[test]
fn test_task_status() {
    assert_eq!(TaskStatus::Pending, TaskStatus::Pending);
    assert_eq!(TaskStatus::Running, TaskStatus::Running);
    assert_eq!(TaskStatus::Completed, TaskStatus::Completed);
    assert_eq!(TaskStatus::Failed, TaskStatus::Failed);
    assert_eq!(TaskStatus::TimedOut, TaskStatus::TimedOut);
}

#[test]
fn test_agent_definition_new() {
    let agent = AgentDefinition::new(
        "test-agent",
        "Test Agent",
        "A test agent",
        "general-purpose",
        "You are a helpful assistant.",
    );

    assert_eq!(agent.id, "test-agent");
    assert_eq!(agent.name, "Test Agent");
    assert_eq!(agent.agent_type, "general-purpose");
    assert_eq!(agent.max_turns, None);
    assert!(agent.tool_groups.is_empty());
}

#[test]
fn test_agent_definition_builder() {
    let agent = AgentDefinition::new(
        "test-agent",
        "Test Agent",
        "A test agent",
        "general-purpose",
        "You are a helpful assistant.",
    )
    .with_max_turns(10)
    .with_tool_group("sandbox");

    assert_eq!(agent.max_turns, Some(10));
    assert_eq!(agent.tool_groups, vec!["sandbox"]);
}

#[test]
fn test_agent_registry() {
    let mut registry = AgentRegistry::new();

    let agent = AgentDefinition::new(
        "test-agent",
        "Test Agent",
        "A test agent",
        "general-purpose",
        "You are a helpful assistant.",
    );

    registry.register(agent).unwrap();
    assert_eq!(registry.len(), 1);
    assert!(registry.contains("test-agent"));

    let retrieved = registry.get("test-agent").unwrap();
    assert_eq!(retrieved.id, "test-agent");

    let ids = registry.list();
    assert_eq!(ids, vec!["test-agent"]);

    registry.remove("test-agent").unwrap();
    assert_eq!(registry.len(), 0);
}

#[test]
fn test_agent_registry_list_by_type() {
    let mut registry = AgentRegistry::new();

    registry
        .register(AgentDefinition::new("agent1", "Agent 1", "First agent", "general-purpose", "prompt1"))
        .unwrap();

    registry
        .register(AgentDefinition::new("agent2", "Agent 2", "Second agent", "bash", "prompt2"))
        .unwrap();

    let general_agents = registry.list_by_type("general-purpose");
    assert_eq!(general_agents.len(), 1);
    assert_eq!(general_agents[0].id, "agent1");

    let bash_agents = registry.list_by_type("bash");
    assert_eq!(bash_agents.len(), 1);
    assert_eq!(bash_agents[0].id, "agent2");
}

#[test]
fn test_subagent_executor_new() {
    let registry = Arc::new(AgentRegistry::new());
    let executor = SubagentExecutor::new(registry, 3);

    assert_eq!(executor.max_concurrent(), 3);

    let tasks = executor.list_tasks();
    assert!(tasks.is_empty());
}

#[test]
fn test_subagent_executor_execute_agent_not_found() {
    let registry = Arc::new(AgentRegistry::new());
    let mut executor = SubagentExecutor::new(registry, 3);

    let result = executor.execute("nonexistent", "test prompt");
    assert!(result.is_err());
}

#[test]
fn test_subagent_executor_execute() {
    let mut registry = AgentRegistry::new();
    registry
        .register(AgentDefinition::new("test-agent", "Test", "Test agent", "general-purpose", "You are helpful."))
        .unwrap();

    let mut executor = SubagentExecutor::new(Arc::new(registry), 3);

    let result = executor.execute("test-agent", "test prompt");
    assert!(result.is_ok());

    assert!(result.unwrap().contains("Subagent execution placeholder"));
}

#[test]
fn test_subagent_executor_concurrent_limit() {
    let mut registry = AgentRegistry::new();
    registry
        .register(AgentDefinition::new("test-agent", "Test", "Test agent", "general-purpose", "You are helpful."))
        .unwrap();

    let mut executor = SubagentExecutor::new(Arc::new(registry), 1);

    assert_eq!(executor.max_concurrent(), 1);

    let result = executor.execute("test-agent", "prompt1");
    assert!(result.is_ok());

    let tasks = executor.list_tasks();
    assert_eq!(tasks.len(), 1);
    assert_eq!(tasks[0].status, TaskStatus::Completed);
}

#[test]
fn executor_errors() {
    let registry = Arc::new(AgentRegistry::new());
    let mut executor = SubagentExecutor::new(registry, 0);
    match executor.execute("x", "p") {
        Err(HarnessError::Other(m)) => assert_eq!(m, "Agent not found: x"),
        other => panic!("unexpected {:?}", other),
    }
    let mut reg = AgentRegistry::new();
    reg.register(AgentDefinition::new("a", "A", "d", "t", "p")).unwrap();
    let mut full = SubagentExecutor::new(Arc::new(reg), 0);
    match full.execute("a", "p") {
        Err(HarnessError::Other(m)) => assert_eq!(m, "Maximum concurrent tasks (0) exceeded"),
        other => panic!("unexpected {:?}", other),
    }
    let mut r2 = AgentRegistry::new();
    match r2.remove("nope") {
        Err(HarnessError::Other(m)) => assert_eq!(m, "Agent not found: nope"),
        other => panic!("unexpected {:?}", other),
    }
}

#[test]
fn tasks_are_recorded_with_their_result() {
    let mut reg = AgentRegistry::new();
    reg.register(AgentDefinition::new("a", "A", "d", "t", "p")).unwrap();
    let mut ex = SubagentExecutor::new(Arc::new(reg), 2);
    let out = ex.execute("a", "do it").unwrap();
    assert_eq!(out, "[Subagent execution placeholder for prompt: do it]");
    let tasks = ex.list_tasks();
    let t = ex.get_task(&tasks[0].id).unwrap();
    assert_eq!(t.result.as_deref(), Some(out.as_str()));
    assert_eq!(t.agent_id, "a");
}

#[test]
fn executed_task_has_hyphenated_uuid_id() {
    let mut registry = AgentRegistry::new();
    registry
        .register(AgentDefinition::new("a", "A", "An agent", "general-purpose", "Be brief."))
        .unwrap();
    let mut executor = SubagentExecutor::new(Arc::new(registry), 2);
    executor.execute("a", "hi").unwrap();
    let tasks = executor.list_tasks();
    assert_eq!(tasks.len(), 1);
    let id = &tasks[0].id;
    assert_eq!(id.len(), 36);
    for i in [8, 13, 18, 23] {
        assert_eq!(id.as_bytes()[i], b'-');
    }
    assert_eq!(tasks[0].status, TaskStatus::Completed);
    assert!(executor.get_task(id).is_some());
}

#[test]
fn started_tasks_count_against_the_limit() {
    let mut registry = AgentRegistry::new();
    registry
        .register(AgentDefinition::new("a", "A", "An agent", "general-purpose", "Be brief."))
        .unwrap();
    let mut executor = SubagentExecutor::new(Arc::new(registry), 1);
    let id = executor.start_task("a", "first").unwrap();
    assert_eq!(executor.get_task(&id).unwrap().status, TaskStatus::Running);
    match executor.start_task("a", "second") {
        Err(HarnessError::Other(m)) => assert_eq!(m, "Maximum concurrent tasks (1) exceeded"),
        _ => panic!("expected the limit"),
    }
    let out: Result<String, HarnessError> = Ok(SubagentExecutor::task_output("first"));
    executor.finish_task(&id, &out);
    let task = executor.get_task(&id).unwrap();
    assert_eq!(task.status, TaskStatus::Completed);
    assert_eq!(task.result.as_deref(), Some("[Subagent execution placeholder for prompt: first]"));
    assert!(executor.start_task("a", "second").is_ok());
}
