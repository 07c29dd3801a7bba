use agent_harness::error::HarnessError;
use agent_harness::skills::{FrontMatter, Skill, SkillLoader, SkillMetadata};

fn meta(name: &str, enabled: bool, required: Option<Vec<&str>>) -> SkillMetadata {
    SkillMetadata {
        name: name.to_string(),
        description: format!("About {}", name),
        version: None,
        author: None,
        license: None,
        required_tools: required.map(|v| v.into_iter().map(|s| s.to_string()).collect()),
        tags: None,
        enabled,
    }
}

fn skill(name: &str, enabled: bool, required: Option<Vec<&str>>, container: Option<&str>) -> Skill {
    Skill {
        metadata: meta(name, enabled, required),
        content: "body".to_string(),
        path: format!("/skills/{}/SKILL.md", name),
        container_path: container.map(|c| c.to_string()),
    }
}

#[test]
fn test_skill_loader_new() {
    let loader = SkillLoader::new("/tmp/skills");
    assert_eq!(loader.skills_dir(), "/tmp/skills");
    assert!(loader.custom_dir().is_none());
    assert!(loader.list().is_empty());
}

#[test]
fn test_skill_loader_list_empty() {
    let loader = SkillLoader::new("/nonexistent/skills");
    let names = loader.list();
    assert!(names.is_empty());
}

#[test]
fn test_parse_frontmatter_no_frontmatter() {
    let loader = SkillLoader::new("/tmp");
    let content = "# Just markdown\n\nSome content";
    let result = loader.parse_frontmatter(content);
    assert!(result.is_ok());
    match result.unwrap() {
        FrontMatter::Absent { metadata, markdown } => {
            assert_eq!(metadata.name, "unknown");
            assert_eq!(markdown, content);
        }
        FrontMatter::Yaml { .. } => panic!("expected no front matter"),
    }
}

#[test]
fn test_parse_frontmatter_valid() {
    let loader = SkillLoader::new("/tmp");
    let content = r#"---
name: "test-skill"
description: "A test skill"
version: "1.0.0"
enabled: true
---

# Skill Content

Some content here."#;

    let result = loader.parse_frontmatter(content);
    assert!(result.is_ok());
    match result.unwrap() {
        FrontMatter::Yaml { frontmatter, markdown } => {
            let value: serde_yaml::Value = serde_yaml::from_str(&frontmatter).unwrap();
            assert_eq!(value["name"].as_str(), Some("test-skill"));
            assert_eq!(value["description"].as_str(), Some("A test skill"));
            assert_eq!(value["version"].as_str(), Some("1.0.0"));
            assert_eq!(value["enabled"].as_bool(), Some(true));
            assert!(markdown.contains("Skill Content"));
        }
        FrontMatter::Absent { .. } => panic!("expected front matter"),
    }
}

#[test]
fn frontmatter_without_closing_fails() {
    let loader = SkillLoader::new("/tmp");
    match loader.parse_frontmatter("---\nname: x\n") {
        Err(HarnessError::Other(m)) => assert_eq!(m, "Invalid frontmatter format"),
        _ => panic!("expected an error"),
    }
}

#[test]
fn frontmatter_split_is_exact() {
    let loader = SkillLoader::new("/tmp");
    match loader.parse_frontmatter("---\n  name: a  \n---\nrest") {
        Ok(FrontMatter::Yaml { frontmatter, markdown }) => {
            assert_eq!(frontmatter, "name: a");
            assert_eq!(markdown, "\nrest");
        }
        _ => panic!("expected front matter"),
    }
}

#[test]
fn skill_file_choice() {
    assert_eq!(SkillLoader::skill_file(true, true), Some("SKILL.md"));
    assert_eq!(SkillLoader::skill_file(false, true), Some("README.md"));
    assert_eq!(SkillLoader::skill_file(false, false), None);
}

#[test]
fn metadata_error_message() {
    let loader = SkillLoader::new("/tmp");
    match loader.metadata_error("oops") {
        HarnessError::Other(m) => assert_eq!(m, "Failed to parse skill metadata: oops"),
        _ => panic!("expected Other"),
    }
}

#[test]
fn record_get_list_and_filters() {
    let mut loader = SkillLoader::new("/skills").with_custom_dir("/custom");
    assert_eq!(loader.custom_dir(), Some("/custom"));
    loader.record(&vec![
        skill("alpha", true, None, Some("/skills/alpha")),
        skill("beta", false, None, None),
        skill("gamma", true, Some(vec!["sandbox"]), None),
        skill("delta", true, Some(vec!["web"]), None),
    ]);
    assert_eq!(loader.list(), vec!["alpha", "beta", "gamma", "delta"]);
    assert_eq!(loader.list_enabled(), vec!["alpha", "gamma", "delta"]);
    assert!(loader.get("beta").is_some());
    assert!(loader.get("omega").is_none());

    let fit: Vec<&str> = loader
        .get_skills_for_tools(&vec!["sandbox".to_string()])
        .iter()
        .map(|s| s.metadata.name.as_str())
        .collect();
    assert_eq!(fit, vec!["alpha", "gamma"]);

    assert_eq!(
        loader.format_for_prompt(2),
        "Available Skills:\n- **alpha** (alpha): About alpha\n- **gamma** (unknown): About gamma"
    );
}

#[test]
fn format_for_prompt_without_enabled_skills_is_empty() {
    let mut loader = SkillLoader::new("/skills");
    loader.record(&vec![skill("off", false, None, None)]);
    assert_eq!(loader.format_for_prompt(5), "");
}

#[test]
fn record_later_skill_replaces_earlier() {
    let mut loader = SkillLoader::new("/skills");
    let mut first = skill("same", true, None, None);
    first.content = "first".to_string();
    let mut second = skill("same", true, None, None);
    second.content = "second".to_string();
    loader.record(&vec![first, second]);
    assert_eq!(loader.list(), vec!["same"]);
    assert_eq!(loader.get("same").unwrap().content, "second");
}
