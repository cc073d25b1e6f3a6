use kimi_cli_rs::agentspec::ResolvedAgentSpec;
use kimi_cli_rs::error::KimiCliError;
use kimi_cli_rs::skill::{Skill, SkillType};
use kimi_cli_rs::soul::agent::{
    additional_dirs_info, effective_tools, merge_agents_md, prompt_render_outcome, prompt_template_failure,
    prune_additional_dirs, render_system_prompt, select_plugin_tools, shell_label, skills_listing,
    system_prompt_vars, wants_agent_tool, BuiltinSystemPromptArgs,
};

fn builtin() -> BuiltinSystemPromptArgs {
    BuiltinSystemPromptArgs {
        KIMI_NOW: "2024-01-01T00:00:00Z".into(),
        KIMI_WORK_DIR: "/w".into(),
        KIMI_WORK_DIR_LS: "a\nb".into(),
        KIMI_AGENTS_MD: String::new(),
        KIMI_SKILLS: "No skills found.".into(),
        KIMI_ADDITIONAL_DIRS_INFO: String::new(),
        KIMI_OS: "linux".into(),
        KIMI_SHELL: "bash (`/bin/bash`)".into(),
    }
}

fn strings(v: &[&str]) -> Vec<String> {
    v.iter().map(|s| s.to_string()).collect()
}

fn spec(tools: &[&str], allowed: Option<&[&str]>, exclude: &[&str]) -> ResolvedAgentSpec {
    ResolvedAgentSpec {
        name: "a".into(),
        system_prompt_path: "p.md".into(),
        system_prompt_args: Vec::new(),
        model: None,
        when_to_use: String::new(),
        tools: strings(tools),
        allowed_tools: allowed.map(strings),
        exclude_tools: strings(exclude),
        subagents: Vec::new(),
    }
}

#[test]
fn prompt_vars_put_spec_args_last() {
    let vars = system_prompt_vars(&builtin(), &vec![("ROLE".to_string(), "coder".to_string())]);
    assert_eq!(vars.len(), 9);
    assert_eq!(vars[0], ("KIMI_NOW".to_string(), "2024-01-01T00:00:00Z".to_string()));
    assert_eq!(vars[6], ("KIMI_OS".to_string(), "linux".to_string()));
    assert_eq!(vars[8], ("ROLE".to_string(), "coder".to_string()));
}

#[test]
fn system_prompt_renders_placeholders() {
    let args = vec![("ROLE".to_string(), "coder".to_string()), ("KIMI_OS".to_string(), "plan9".to_string())];
    let out = render_system_prompt("  You are a ${ROLE} on ${ KIMI_OS } in {{ KIMI_WORK_DIR }}.\n", "p.md", &args, &builtin());
    assert_eq!(out.unwrap(), "You are a coder on plan9 in /w.");
    let plain = render_system_prompt("OS: ${KIMI_OS}", "p.md", &Vec::new(), &builtin());
    assert_eq!(plain.unwrap(), "OS: linux");
}

#[test]
fn system_prompt_template_errors() {
    let bad = render_system_prompt("{% if %}", "agents/p.md", &Vec::new(), &builtin());
    match bad {
        Err(KimiCliError::SystemPromptTemplate(m)) => {
            assert!(m.starts_with("Invalid system prompt template: agents/p.md: "))
        },
        _ => panic!("expected a template error"),
    }
    let e = prompt_template_failure("p.md", "syntax");
    assert_eq!(e.to_string(), "system prompt template error: Invalid system prompt template: p.md: syntax");
    match prompt_render_outcome("p.md", Err("undefined".to_string())) {
        Err(KimiCliError::SystemPromptTemplate(m)) => assert_eq!(m, "Missing system prompt arg in p.md: undefined"),
        _ => panic!("expected a render error"),
    }
    assert_eq!(prompt_render_outcome("p.md", Ok("x".to_string())).unwrap(), "x");
}

#[test]
fn tools_follow_allow_and_exclude_lists() {
    let s = spec(&["Read", "Shell", "Agent"], None, &["Shell"]);
    assert_eq!(effective_tools(&s), strings(&["Read", "Agent"]));
    let s2 = spec(&["Read"], Some(&["Write", "Agent"]), &["Agent"]);
    let tools = effective_tools(&s2);
    assert_eq!(tools, strings(&["Write"]));
    assert!(!wants_agent_tool(&tools, &s2.exclude_tools));
    assert!(wants_agent_tool(&strings(&["Agent"]), &Vec::new()));
}

#[test]
fn plugin_tools_skip_taken_names() {
    let existing = strings(&["Read", "Shell"]);
    let plugins = strings(&["Fmt", "Read", "Lint", "Fmt"]);
    assert_eq!(select_plugin_tools(&existing, &plugins), vec![0, 2]);
    assert_eq!(select_plugin_tools(&Vec::new(), &Vec::new()), Vec::<usize>::new());
}

#[test]
fn agents_md_merges_root_to_leaf() {
    let files = vec![
        ("/p/AGENTS.md".to_string(), "  root rules \n".to_string()),
        ("/p/sub/.kimi/AGENTS.md".to_string(), "   ".to_string()),
        ("/p/sub/AGENTS.md".to_string(), "leaf".to_string()),
    ];
    let merged = merge_agents_md(&files).unwrap().unwrap();
    assert_eq!(merged, "<!-- From: /p/AGENTS.md -->\nroot rules\n\n<!-- From: /p/sub/AGENTS.md -->\nleaf");
    assert_eq!(merge_agents_md(&Vec::new()), Some(None));
    assert_eq!(merge_agents_md(&vec![("/a".to_string(), " \n".to_string())]), Some(None));
}

#[test]
fn agents_md_budget_cuts_the_oldest() {
    let big = "x".repeat(40_000);
    let files = vec![("/r/AGENTS.md".to_string(), big), ("/r/s/AGENTS.md".to_string(), "leaf".to_string())];
    let merged = merge_agents_md(&files).unwrap().unwrap();
    let leaf_part = "<!-- From: /r/s/AGENTS.md -->\nleaf";
    assert!(merged.ends_with(leaf_part));
    assert!(merged.starts_with("<!-- From: /r/AGENTS.md -->\nxxx"));
    // The whole text stays within the budget.
    assert!(merged.len() <= 32768);
    assert_eq!(merged.len(), 32768);
}

#[test]
fn skill_listing() {
    assert_eq!(skills_listing(&Vec::new()), "No skills found.");
    let skills = vec![Skill {
        name: "pdf".into(),
        description: "Read PDFs".into(),
        skill_type: SkillType::Standard,
        dir: "/s/pdf".into(),
        flow: None,
    }];
    assert_eq!(skills_listing(&skills), "- pdf\n  - Path: /s/pdf/SKILL.md\n  - Description: Read PDFs");
}

#[test]
fn additional_directories() {
    let (kept, pruned) = prune_additional_dirs(&strings(&["/a", "/gone", "/b"]), &vec![true, false, true]);
    assert_eq!(kept, strings(&["/a", "/b"]));
    assert!(pruned);
    let (kept2, pruned2) = prune_additional_dirs(&strings(&["/a"]), &vec![true]);
    assert_eq!(kept2, strings(&["/a"]));
    assert!(!pruned2);
    let info = additional_dirs_info(&vec![("/a".to_string(), "f1".to_string()), ("/b".to_string(), "f2".to_string())]);
    assert_eq!(info, "### `/a`\n\n```\nf1\n```\n\n### `/b`\n\n```\nf2\n```");
    assert_eq!(shell_label("bash", "/bin/bash"), "bash (`/bin/bash`)");
}

#[test]
fn relocation_changes_only_paths() {
    let spec = kimi_cli_rs::agentspec::AgentSpec {
        extend: None,
        name: Some("a".into()),
        system_prompt_path: Some("p.md".into()),
        system_prompt_args: vec![("K".into(), "v".into())],
        model: None,
        when_to_use: Some("always".into()),
        tools: Some(vec!["Shell".into()]),
        allowed_tools: None,
        exclude_tools: Some(vec!["Grep".into()]),
        subagents: vec![(
            "sub".into(),
            kimi_cli_rs::agentspec::SubagentSpec { path: "sub.yaml".into(), description: "d".into() },
        )],
    };
    let r = kimi_cli_rs::agentspec::relocate_paths(spec, "/agents");
    assert_eq!(r.system_prompt_path.as_deref(), Some("/agents/p.md"));
    assert_eq!(r.subagents[0].1.path, "/agents/sub.yaml");
    assert_eq!(r.tools, Some(vec!["Shell".to_string()]));
    assert_eq!(r.exclude_tools, Some(vec!["Grep".to_string()]));
    assert_eq!(r.when_to_use.as_deref(), Some("always"));
    assert_eq!(r.system_prompt_args, vec![("K".to_string(), "v".to_string())]);
}
