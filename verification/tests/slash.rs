use kimi_cli_rs::soul::slash::{
    add_dir_argument, export_target, init_agents_md, plan_subcommand, PlanSubcommand, ProjectMarkers,
};

fn markers(cargo: bool, node: bool, python: bool, go: bool) -> ProjectMarkers {
    ProjectMarkers { cargo_toml: cargo, package_json: node, python, go_mod: go }
}

#[test]
fn init_guide_names_project_and_languages() {
    let md = init_agents_md("/home/u/proj", markers(true, true, false, false));
    assert!(md.starts_with("# Agent Guide for proj\n\n## Project Type\nnode\n\n## Primary Languages\nRust / JavaScript/TypeScript\n\n## Key Conventions\n"));
    assert!(md.ends_with("## Notes\n<!-- Add any project-specific notes here -->\n"));
    let md = init_agents_md("/home/u/empty", markers(false, false, false, false));
    assert!(md.contains("## Project Type\nunknown\n"));
    assert!(md.contains("## Primary Languages\nUnknown\n"));
    let md = init_agents_md("/w", markers(false, false, true, true));
    assert!(md.contains("## Project Type\ngo\n"));
    assert!(md.contains("Python / Go"));
}

#[test]
fn plan_arguments() {
    assert_eq!(plan_subcommand(" ON "), PlanSubcommand::On);
    assert_eq!(plan_subcommand("off"), PlanSubcommand::Off);
    assert_eq!(plan_subcommand("View"), PlanSubcommand::View);
    assert_eq!(plan_subcommand("clear"), PlanSubcommand::Clear);
    assert_eq!(plan_subcommand(""), PlanSubcommand::Toggle);
    assert_eq!(plan_subcommand("maybe"), PlanSubcommand::Toggle);
}

#[test]
fn add_dir_and_export_arguments() {
    assert_eq!(add_dir_argument("   "), None);
    assert_eq!(add_dir_argument(" /tmp/x "), Some("/tmp/x".to_string()));
    assert_eq!(export_target(" out.md ", "/share", "s1"), "out.md");
    assert_eq!(export_target("", "/share", "s1"), "/share/exports/s1.md");
}
