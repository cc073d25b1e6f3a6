use kimi_cli_rs::skill::merge::{
    merge_discovered_skills, project_skills_dir, resolve_skills_roots, user_skills_dir,
};
use kimi_cli_rs::text::text_lt_exec;
use kimi_cli_rs::skill::Skill;

fn skill(name: &str, dir: &str) -> Skill {
    Skill { name: name.into(), dir: dir.into(), ..Skill::default() }
}

#[test]
fn names_order_as_strings_do() {
    assert!(text_lt_exec("Alpha", "Gamma"));
    assert!(text_lt_exec("Gamma", "beta"));
    assert!(text_lt_exec("ab", "abc"));
    assert!(!text_lt_exec("abc", "ab"));
    assert!(!text_lt_exec("same", "same"));
    assert!(text_lt_exec("", "a"));
}

#[test]
fn merged_skills_keep_the_first_of_each_name_in_order() {
    let found = vec![
        skill("beta", "/builtin/beta"),
        skill("Gamma", "/builtin/gamma"),
        skill("BETA", "/user/beta"),
        skill("Alpha", "/project/alpha"),
        skill("gamma", "/project/gamma"),
    ];
    let merged = merge_discovered_skills(found);
    let names: Vec<&str> = merged.iter().map(|s| s.name.as_str()).collect();
    assert_eq!(names, vec!["Alpha", "Gamma", "beta"]);
    assert_eq!(merged[2].dir, "/builtin/beta");
    assert_eq!(merged[1].dir, "/builtin/gamma");
}

#[test]
fn skill_roots_in_priority_order() {
    assert_eq!(user_skills_dir("/home/u/.config"), "/home/u/.config/kimi/skills");
    assert_eq!(project_skills_dir("/w"), "/w/.kimi/skills");
    let extra = vec!["/x".to_string()];
    let roots = resolve_skills_roots("/b".into(), None, Some("/w/.kimi/skills".into()), Some(&extra));
    assert_eq!(roots, vec!["/b", "/w/.kimi/skills", "/x"]);
    let roots = resolve_skills_roots("/b".into(), Some("/u".into()), None, None);
    assert_eq!(roots, vec!["/b", "/u"]);
}
