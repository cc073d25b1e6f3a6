use kimi_cli_rs::plugin::{manifest_load_result, manifest_path_for, plugins_dir_unreadable, ManifestRead, build_command, dedup_tool_defs, get_plugins_dir, PluginLoadResult, PluginManager, PluginToolDef};

#[test]
fn plugin_manager_default_uses_share_dir() {
    let mgr: PluginManager<()> = PluginManager::default();
    assert!(mgr.plugins_dir().contains("plugins"));
}

#[test]
fn plugin_manager_load_and_reload() {
    let mut mgr: PluginManager<u32> = PluginManager::new("/tmp/p".to_string());
    assert!(mgr.tools().is_empty());
    assert!(mgr.load_results().is_empty());
    let results = vec![PluginLoadResult {
        manifest_path: "/tmp/p/a.toml".into(),
        plugin_name: "a".into(),
        tools_loaded: 0,
        error: Some("Failed to parse manifest: x".into()),
    }];
    assert_eq!(mgr.load(vec![1, 2], results).len(), 2);
    assert!(mgr.had_errors());
    assert_eq!(mgr.reload(vec![], vec![]).len(), 0);
    assert!(!mgr.had_errors());
    assert!(mgr.tools().is_empty());
    assert_eq!(mgr.plugins_dir(), "/tmp/p");
}

#[test]
fn plugins_dir_under_share_dir() {
    assert_eq!(get_plugins_dir(Some("/home/u/.kimi")), "/home/u/.kimi/plugins");
    assert_eq!(get_plugins_dir(None), "./plugins");
}

#[test]
fn plugin_tool_build_command() {
    let args = vec![
        ("greeting".to_string(), "hello".to_string()),
        ("name".to_string(), "world".to_string()),
    ];
    assert_eq!(build_command("echo {greeting} {name}", &args), "echo hello world");
}

#[test]
fn plugin_tool_build_command_missing_placeholder() {
    let args = vec![("name".to_string(), "world".to_string())];
    assert_eq!(build_command("echo hello", &args), "echo hello");
}

#[test]
fn duplicate_tool_names_keep_first() {
    let def = |n: &str, c: &str| PluginToolDef {
        name: n.into(),
        description: String::new(),
        command: c.into(),
        parameters: "{}".into(),
    };
    let kept = dedup_tool_defs(&vec![def("a", "1"), def("b", "2"), def("a", "3")]);
    assert_eq!(kept.len(), 2);
    assert_eq!(kept[0].command, "1");
    assert_eq!(kept[1].name, "b");
}

#[test]
fn manifest_results_name_failed_plugins_by_file_stem() {
    let ok = manifest_load_result("/p/demo/plugin.toml", ManifestRead::Parsed { name: "demo".into(), tools: 3 });
    assert_eq!((ok.plugin_name.as_str(), ok.tools_loaded, ok.error.is_none()), ("demo", 3, true));
    let bad = manifest_load_result("/p/broken.toml", ManifestRead::Invalid("expected `=`".into()));
    assert_eq!(bad.plugin_name, "broken");
    assert_eq!(bad.tools_loaded, 0);
    assert_eq!(bad.error.as_deref(), Some("Failed to parse manifest: expected `=`"));
    let unread = manifest_load_result("/p/x/plugin.toml", ManifestRead::Unreadable("denied".into()));
    assert_eq!(unread.plugin_name, "plugin");
    assert_eq!(unread.error.as_deref(), Some("Failed to read manifest: denied"));
    let dir = plugins_dir_unreadable("/p", "gone");
    assert_eq!(dir.manifest_path, "/p");
    assert_eq!(dir.plugin_name, "");
    assert_eq!(dir.error.as_deref(), Some("Failed to read plugins directory: gone"));
}

#[test]
fn manifest_paths_of_plugin_entries() {
    assert_eq!(manifest_path_for("/p/demo", true).as_deref(), Some("/p/demo/plugin.toml"));
    assert_eq!(manifest_path_for("/p/tool.toml", false).as_deref(), Some("/p/tool.toml"));
    assert_eq!(manifest_path_for("/p/readme.md", false), None);
    assert_eq!(manifest_path_for("/p/noext", false), None);
}
