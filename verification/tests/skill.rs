use kimi_cli_rs::skill::{
    get_builtin_skills_dir, index_skills, normalize_skill_name, parse_skill_text, Skill, SkillType,
};
use std::path::PathBuf;

#[test]
fn parse_skill_text_uses_defaults_without_frontmatter() {
    let dir = PathBuf::from("/tmp/skills/my-skill");
    let skill = parse_skill_text("Some content", dir.to_str().unwrap()).unwrap();
    assert_eq!(skill.name, "my-skill");
    assert_eq!(skill.description, "No description provided.");
    assert_eq!(skill.skill_type, SkillType::Standard);
}

#[test]
fn parse_skill_text_extracts_frontmatter() {
    let dir = PathBuf::from("/tmp/skills/ignored-name");
    let content = r#"---
name: Test Skill
description: A test description
type: flow
---

# Content
"#;
    let skill = parse_skill_text(content, dir.to_str().unwrap()).unwrap();
    assert_eq!(skill.name, "Test Skill");
    assert_eq!(skill.description, "A test description");
    assert_eq!(skill.skill_type, SkillType::Flow);
}

#[test]
fn parse_skill_text_partial_frontmatter() {
    let dir = PathBuf::from("/tmp/skills/my-skill");
    let content = r#"---
name: Partial Skill
---
Content here."#;
    let skill = parse_skill_text(content, dir.to_str().unwrap()).unwrap();
    assert_eq!(skill.name, "Partial Skill");
    assert_eq!(skill.description, "No description provided.");
    assert_eq!(skill.skill_type, SkillType::Standard);
}

#[test]
fn parse_skill_text_invalid_type_fallback() {
    let dir = PathBuf::from("/tmp/skills/my-skill");
    let content = r#"---
type: unknown_type
---
"#;
    let skill = parse_skill_text(content, dir.to_str().unwrap()).unwrap();
    assert_eq!(skill.skill_type, SkillType::Standard);
}

#[test]
fn parse_skill_text_strips_quotes_and_ignores_unknown_keys() {
    let content = "  \n---\nname: \"Quoted\"\nauthor: someone\ndescription: 'single'\n---\n";
    let skill = parse_skill_text(content, "/x/dir-name").unwrap();
    assert_eq!(skill.name, "Quoted");
    assert_eq!(skill.description, "single");
    assert_eq!(skill.dir, "/x/dir-name");
}

#[test]
fn parse_skill_text_unclosed_frontmatter_keeps_defaults() {
    let skill = parse_skill_text("---\nname: Never closed\n", "/x/plain").unwrap();
    assert_eq!(skill.name, "plain");
}

#[test]
fn parse_skill_text_root_dir_is_unknown() {
    let skill = parse_skill_text("", "/").unwrap();
    assert_eq!(skill.name, "unknown");
}

#[test]
fn skill_type_names() {
    assert_eq!(SkillType::from_name("flow").unwrap(), SkillType::Flow);
    assert_eq!(SkillType::from_name("standard").unwrap(), SkillType::Standard);
    let err = SkillType::from_name("other").unwrap_err();
    assert_eq!(err.to_string(), "configuration error: Invalid skill type: other");
}

#[test]
fn skill_paths() {
    let mut skill = Skill::default();
    skill.dir = "/a/b".to_string();
    assert_eq!(skill.skill_md_file(), "/a/b/SKILL.md");
    skill.dir = "/a/b/".to_string();
    assert_eq!(skill.skill_md_file(), "/a/b/SKILL.md");
    assert_eq!(get_builtin_skills_dir("/src/kimi"), "/src/kimi/skills");
}

#[test]
fn normalize_and_index_skills() {
    assert_eq!(normalize_skill_name("MySkill"), "myskill");
    let mut a = Skill::default();
    a.name = "Alpha".to_string();
    let mut b = Skill::default();
    b.name = "beta".to_string();
    let mut c = Skill::default();
    c.name = "ALPHA".to_string();
    let index = index_skills(&[a, b, c]);
    assert_eq!(index.len(), 2);
    let alpha = index.iter().find(|(k, _)| k == "alpha").unwrap();
    assert_eq!(alpha.1, 2);
    let beta = index.iter().find(|(k, _)| k == "beta").unwrap();
    assert_eq!(beta.1, 1);
}
