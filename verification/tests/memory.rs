use agent_harness::error::HarnessError;
use agent_harness::messages::Content;
use agent_harness::models::base::{Message, MessageRole};
use agent_harness::memory::{
    Fact, FactCategory, FactSource, MemoryData, MemoryUpdate, MemoryUpdater, ParsedUpdate, RawFact,
    UserContext,
};

fn millionths(x: f64) -> u32 {
    (x * 1_000_000.0).round() as u32
}

#[test]
fn test_user_context_default() {
    let ctx = UserContext::default();
    assert!(ctx.work_context.is_none());
    assert!(ctx.personal_context.is_none());
    assert!(ctx.top_of_mind.is_none());
}

#[test]
fn test_fact_new() {
    let fact = Fact::new(
        "User prefers Rust",
        FactCategory::Preference,
        millionths(0.9),
        FactSource::Conversation,
    );

    assert_eq!(fact.content, "User prefers Rust");
    assert_eq!(fact.category, FactCategory::Preference);
    assert_eq!(fact.confidence, 900_000);
}

#[test]
fn test_memory_data_add_fact() {
    let mut memory = MemoryData::new();
    let fact1 = Fact::new(
        "User likes coffee",
        FactCategory::Preference,
        millionths(0.8),
        FactSource::Conversation,
    );
    let fact2 = fact1.clone();

    memory.add_fact(fact1);
    assert_eq!(memory.facts.len(), 1);

    memory.add_fact(fact2);
    assert_eq!(memory.facts.len(), 1);
}

#[test]
fn test_memory_data_facts_by_category() {
    let mut memory = MemoryData::new();

    memory.add_fact(Fact::new(
        "Likes coffee",
        FactCategory::Preference,
        millionths(0.8),
        FactSource::Conversation,
    ));

    memory.add_fact(Fact::new(
        "Knows Python",
        FactCategory::Knowledge,
        millionths(0.9),
        FactSource::Explicit,
    ));

    let prefs = memory.facts_by_category(&FactCategory::Preference);
    assert_eq!(prefs.len(), 1);
    assert_eq!(prefs[0].content, "Likes coffee");

    let knowledge = memory.facts_by_category(&FactCategory::Knowledge);
    assert_eq!(knowledge.len(), 1);
    assert_eq!(knowledge[0].content, "Knows Python");
}

#[test]
fn test_memory_data_prune_facts() {
    let mut memory = MemoryData::new();

    for i in 0..10 {
        let confidence = 0.5 + (i as f64 * 0.05);
        memory.add_fact(Fact::new(
            &format!("Fact {}", i),
            FactCategory::Knowledge,
            millionths(confidence),
            FactSource::Conversation,
        ));
    }

    assert_eq!(memory.facts.len(), 10);

    memory.prune_facts(5, millionths(0.7));

    assert!(memory.facts.len() <= 5);
    for fact in &memory.facts {
        assert!(fact.confidence >= 700_000);
    }
}

#[test]
fn test_memory_format_for_prompt() {
    let mut memory = MemoryData::new();

    memory.user_context.work_context = Some("Software engineer".to_string());
    memory.add_fact(Fact::new(
        "Likes Rust",
        FactCategory::Preference,
        millionths(0.9),
        FactSource::Conversation,
    ));

    let prompt = memory.format_for_prompt(10);
    assert!(prompt.contains("Work Context: Software engineer"));
    assert!(prompt.contains("Relevant Facts"));
    assert!(prompt.contains("Preference: Likes Rust"));
}

#[test]
fn test_memory_update_default() {
    let update = MemoryUpdate::default();
    assert!(update.work_context.is_none());
    assert!(update.personal_context.is_none());
    assert!(update.top_of_mind.is_none());
    assert!(update.new_facts.is_empty());
}

#[test]
fn test_parse_facts() {
    let updater = MemoryUpdater::new(100, 700_000);
    let raw = vec![
        RawFact {
            content: Some("Likes coffee".to_string()),
            category: Some("preference".to_string()),
            confidence: Some(millionths(0.9)),
        },
        RawFact {
            content: Some("Works at tech company".to_string()),
            category: Some("context".to_string()),
            confidence: Some(millionths(0.8)),
        },
    ];
    let facts = updater.parse_facts(&raw).unwrap();
    assert_eq!(facts.len(), 2);
    assert_eq!(facts[0].content, "Likes coffee");
    assert_eq!(facts[0].category, FactCategory::Preference);
    assert_eq!(facts[1].category, FactCategory::Context);
    assert_eq!(facts[1].confidence, 800_000);
    assert_eq!(facts[0].source, FactSource::Inferred);
}

#[test]
fn parse_facts_reads_category_in_any_case_and_defaults() {
    let updater = MemoryUpdater::new(100, 700_000);
    let raw = vec![
        RawFact { content: Some("a".to_string()), category: Some("GOAL".to_string()), confidence: None },
        RawFact { content: Some("b".to_string()), category: None, confidence: None },
        RawFact { content: Some("c".to_string()), category: Some("weird".to_string()), confidence: None },
    ];
    let facts = updater.parse_facts(&raw).unwrap();
    assert_eq!(facts[0].category, FactCategory::Goal);
    assert_eq!(facts[0].confidence, 700_000);
    assert_eq!(facts[1].category, FactCategory::Knowledge);
    assert_eq!(facts[2].category, FactCategory::Knowledge);
}

#[test]
fn parse_facts_without_content_fails() {
    let updater = MemoryUpdater::new(100, 700_000);
    let raw = vec![RawFact { content: None, category: None, confidence: None }];
    match updater.parse_facts(&raw) {
        Err(HarnessError::Other(m)) => assert_eq!(m, "Missing fact content"),
        _ => panic!("expected an error"),
    }
}

#[test]
fn parse_memory_updates_keeps_fields() {
    let updater = MemoryUpdater::new(100, 700_000);
    let parsed = ParsedUpdate {
        work_context: Some("Engineer".to_string()),
        personal_context: None,
        top_of_mind: Some("Release".to_string()),
        facts: None,
    };
    let update = updater.parse_memory_updates(parsed).unwrap();
    assert_eq!(update.work_context.as_deref(), Some("Engineer"));
    assert!(update.personal_context.is_none());
    assert_eq!(update.top_of_mind.as_deref(), Some("Release"));
    assert!(update.new_facts.is_empty());
}

#[test]
fn parse_error_message() {
    let updater = MemoryUpdater::new(100, 700_000);
    match updater.parse_error("bad json") {
        HarnessError::Other(m) => assert_eq!(m, "Failed to parse memory update: bad json"),
        _ => panic!("expected Other"),
    }
}

#[test]
fn apply_updates_filters_and_prunes() {
    let updater = MemoryUpdater::new(2, 700_000);
    let mut memory = MemoryData::new();
    let update = MemoryUpdate {
        work_context: Some("Engineer".to_string()),
        personal_context: None,
        top_of_mind: None,
        new_facts: vec![
            Fact::new("low", FactCategory::Knowledge, 100_000, FactSource::Inferred),
            Fact::new("a", FactCategory::Knowledge, 800_000, FactSource::Inferred),
            Fact::new("b", FactCategory::Knowledge, 900_000, FactSource::Inferred),
            Fact::new("c", FactCategory::Knowledge, 750_000, FactSource::Inferred),
        ],
    };
    updater.apply_updates(&mut memory, &update);
    assert_eq!(memory.user_context.work_context.as_deref(), Some("Engineer"));
    assert_eq!(memory.facts.len(), 2);
    assert!(memory.facts.iter().all(|f| f.content != "low"));
    assert_eq!(memory.facts[0].content, "b");
    assert_eq!(memory.facts[1].content, "a");
}

#[test]
fn prune_keeps_most_confident_first() {
    let mut memory = MemoryData::new();
    memory.add_fact(Fact::new("x", FactCategory::Goal, 710_000, FactSource::Explicit));
    memory.add_fact(Fact::new("y", FactCategory::Goal, 990_000, FactSource::Explicit));
    memory.add_fact(Fact::new("z", FactCategory::Goal, 500_000, FactSource::Explicit));
    memory.prune_facts(10, 700_000);
    let names: Vec<&str> = memory.facts.iter().map(|f| f.content.as_str()).collect();
    assert_eq!(names, vec!["y", "x"]);
}

#[test]
fn format_for_prompt_exact() {
    let mut memory = MemoryData::new();
    memory.user_context.top_of_mind = Some("Ship it".to_string());
    memory.add_fact(Fact::new("Likes tea", FactCategory::Preference, 900_000, FactSource::Explicit));
    memory.add_fact(Fact::new("Unsure", FactCategory::Goal, 100_000, FactSource::Explicit));
    assert_eq!(
        memory.format_for_prompt(10),
        "Top of Mind: Ship it\nRelevant Facts:\n- Preference: Likes tea"
    );
    let empty = MemoryData::new();
    assert_eq!(empty.format_for_prompt(10), "");
}

#[test]
fn high_confidence_and_category_names() {
    let mut memory = MemoryData::new();
    memory.add_fact(Fact::new("a", FactCategory::Behavior, 950_000, FactSource::Explicit));
    memory.add_fact(Fact::new("b", FactCategory::Context, 600_000, FactSource::Explicit));
    let high = memory.high_confidence_facts(900_000);
    assert_eq!(high.len(), 1);
    assert_eq!(high[0].category_as_str(), "Behavior");
    assert_eq!(memory.facts[1].category_as_str(), "Context");
    assert_eq!(memory.recent_facts(1).unwrap().len(), 2);
}

#[test]
fn extraction_prompt_lists_conversation() {
    let updater = MemoryUpdater::new(10, 700_000);
    let ai = Message {
        role: MessageRole::Ai,
        content: Content::text("Noted"),
        tool_calls: Vec::new(),
        tool_call_id: None,
        metadata: None,
        usage: None,
    };
    let msgs = vec![Message::human(Content::text("I like Rust")), ai];
    let prompt = updater.create_extraction_prompt(&msgs);
    assert!(prompt.contains("Human: I like Rust"));
    assert!(prompt.contains("Ai: Noted"));
}

#[test]
fn facts_within_days_uses_the_given_clock() {
    let mut memory = MemoryData::new();
    let mut old = Fact::new("old", FactCategory::Context, 900_000, FactSource::Explicit);
    old.created_at = 1_000;
    let mut fresh = Fact::new("fresh", FactCategory::Context, 900_000, FactSource::Explicit);
    fresh.created_at = 5 * 86_400_000;
    memory.add_fact(old);
    memory.add_fact(fresh);
    let now = 6 * 86_400_000;
    let recent = memory.facts_within_days(now, 2).unwrap();
    assert_eq!(recent.len(), 1);
    assert_eq!(recent[0].content, "fresh");
    assert_eq!(memory.facts_within_days(now, 10).unwrap().len(), 2);
    assert!(memory.facts_within_days(now, 200_000_000).is_none());
    assert!(memory.facts_within_days(now, -200_000_000).is_none());
}

#[test]
fn new_memory_is_empty() {
    let memory = MemoryData::new();
    assert!(memory.facts.is_empty());
    assert!(memory.history.recent_months.is_none());
    assert!(memory.history.earlier_context.is_none());
    assert!(memory.history.long_term_background.is_none());
    assert!(memory.metadata.is_empty());
}
