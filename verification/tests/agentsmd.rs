use agentsdk::agentsmd::{resolve_path, AgentsMdPlugin};

#[test]
fn placeholders_are_filled_in() {
    assert_eq!(resolve_path("${HOME}/SYSTEM.md", "/h", "/w", None).as_deref(), Some("/h/SYSTEM.md"));
    assert_eq!(resolve_path("${PWD}/a/${HOME}", "/h", "/w", None).as_deref(), Some("/w/a//h"));
    assert_eq!(resolve_path("${PROJECT_ROOT}/SYSTEM.md", "/h", "/w", None), None);
    assert_eq!(resolve_path("${PROJECT_ROOT}/SYSTEM.md", "/h", "/w", Some("/p")).as_deref(), Some("/p/SYSTEM.md"));
}

#[test]
fn test_agentsmd_builder() {
    let b = AgentsMdPlugin::builder()
        .search_paths(vec!["${HOME}/SYSTEM.md".into(), "${PROJECT_ROOT}/SYSTEM.md".into()])
        .home("/tmp/home".into())
        .project_root("/tmp/project".into());
    let paths = b.resolved_paths("/tmp/home", "/cwd");
    assert_eq!(paths, vec!["/tmp/home/SYSTEM.md", "/tmp/project/SYSTEM.md"]);
    let plugin = AgentsMdPlugin::from_contents(vec![Some("Global prompt".into()), Some("Local prompt".into())]);
    let result = plugin.prepare_system_prompt().unwrap();
    assert!(result.contains("Global prompt"));
    assert!(result.contains("Local prompt"));
    assert!(result.contains("---"));
    assert_eq!(result, "Global prompt\n\n---\n\nLocal prompt");
}

#[test]
fn blank_and_missing_files_are_skipped() {
    let plugin = AgentsMdPlugin::from_contents(vec![None, Some("  \n".into()), Some("PWD prompt".into())]);
    assert_eq!(plugin.prepare_system_prompt().as_deref(), Some("PWD prompt"));
    assert!(AgentsMdPlugin::from_contents(vec![None]).prepare_system_prompt().is_none());
    assert_eq!(AgentsMdPlugin::from_contents(vec![]).name(), "agentsmd");
}

#[test]
fn unset_root_skips_root_paths() {
    let b = AgentsMdPlugin::builder().search_paths(vec!["${PROJECT_ROOT}/A.md".into(), "${PWD}/SYSTEM.md".into()]);
    assert_eq!(b.resolved_paths("/h", "/w"), vec!["/w/SYSTEM.md"]);
}
