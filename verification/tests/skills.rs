use agentsdk::sandbox::{FSProvider, Sandbox, SandboxError};
use agentsdk::skills::{extract_references, split_frontmatter, Reference};
use agentsdk::skillset::{
    finish_skill, script_command, script_not_found, ExecuteSkillScriptInput, LoadReferenceInput, LoadSkillsInput,
    Skill, SkillReference, SkillTool, SkillsPlugin,
};
use std::collections::BTreeMap;

struct Files(BTreeMap<String, String>);

impl FSProvider for Files {
    fn read(&self, path: &str) -> Result<String, SandboxError> {
        self.0.get(path).cloned().ok_or_else(|| SandboxError::ReadDenied(path.to_string()))
    }
    fn write(&self, _path: &str, _content: &str) -> Result<(), SandboxError> {
        Err(SandboxError::WriteDenied("read only".into()))
    }
    fn list(&self, _path: &str) -> Result<Vec<(String, bool)>, SandboxError> {
        Ok(vec![])
    }
    fn glob(&self, _pattern: &str) -> Result<Vec<String>, SandboxError> {
        Ok(vec![])
    }
}

fn sandbox(files: &[(&str, &str)]) -> Sandbox {
    Sandbox::new(Box::new(Files(files.iter().map(|(a, b)| (a.to_string(), b.to_string())).collect())))
}

fn skill(name: &str, desc: &str, needs: &[&str], raw_body: &str) -> Skill {
    let parsed = Skill {
        name: name.into(),
        description: desc.into(),
        content: String::new(),
        needs: needs.iter().map(|s| s.to_string()).collect(),
        references: vec![],
        path: format!("/skills/{name}"),
        extra: vec![],
    };
    finish_skill(parsed, raw_body.to_string())
}

fn load(names: &[&str]) -> LoadSkillsInput {
    LoadSkillsInput { skills: names.iter().map(|s| s.to_string()).collect(), references: None }
}

fn text(r: &agentsdk::json::Json) -> String {
    r.as_str().cloned().unwrap_or_default()
}

#[test]
fn frontmatter_is_split_from_the_body() {
    let (yaml, body) = split_frontmatter("---\nname: test-skill\ndescription: A test skill\n---\nBody content");
    assert_eq!(yaml, "name: test-skill\ndescription: A test skill");
    assert_eq!(body, "Body content");
    let (yaml, body) = split_frontmatter("  no front matter  \n");
    assert_eq!(yaml, "");
    assert_eq!(body, "no front matter");
    let (yaml, body) = split_frontmatter("---\nunterminated");
    assert_eq!(yaml, "");
    assert_eq!(body, "---\nunterminated");
}

#[test]
fn references_are_read_from_their_section() {
    let refs = extract_references("main content\n\n## References\n- [Extra context](./extra.md)\n- [B](b.md)\n## Other\n- [C](c.md)");
    assert_eq!(
        refs,
        vec![
            Reference { title: "Extra context".into(), path: "extra.md".into() },
            Reference { title: "B".into(), path: "b.md".into() },
        ]
    );
}

#[test]
fn test_load_skills() {
    let mut plugin = SkillsPlugin::from_skills(vec![skill("test-skill", "A test skill", &[], "Body content")]);
    let r = plugin.do_load_skills(Some(&sandbox(&[])), &load(&["test-skill"])).unwrap();
    assert!(text(&r).contains("Body content"));
    assert_eq!(text(&r), "## Skill: test-skill\nBody content\n---\n");
    assert!(plugin.is_loaded("test-skill"));
}

#[test]
fn test_skill_dependencies() {
    let mut plugin = SkillsPlugin::from_skills(vec![
        skill("s1", "s1", &["s2"], "s1 content"),
        skill("s2", "s2", &[], "s2 content"),
    ]);
    let r = plugin.do_load_skills(Some(&sandbox(&[])), &load(&["s1"])).unwrap();
    let out = text(&r);
    assert!(out.contains("s1 content"));
    assert!(out.contains("s2 content"));
    assert!(plugin.is_loaded("s1"));
    assert!(plugin.is_loaded("s2"));
    assert!(out.find("Skill: s2").unwrap() < out.find("Skill: s1").unwrap());
}

#[test]
fn loading_again_adds_nothing() {
    let mut plugin = SkillsPlugin::from_skills(vec![skill("a", "a", &[], "a content")]);
    plugin.do_load_skills(Some(&sandbox(&[])), &load(&["a"])).unwrap();
    let again = plugin.do_load_skills(Some(&sandbox(&[])), &load(&["a"])).unwrap();
    assert_eq!(text(&again), "All requested items were already loaded.");
    let none = plugin.do_load_skills(Some(&sandbox(&[])), &load(&[])).unwrap_err();
    assert_eq!(none, "No skills requested");
}

#[test]
fn test_prepare_system_prompt() {
    let mut plugin = SkillsPlugin::from_skills(vec![skill("test-skill", "Test description", &[], "Body")]);
    let prompt = plugin.prepare_system_prompt().unwrap();
    assert!(prompt.contains("test-skill"));
    assert!(prompt.contains("Test description"));
    assert!(prompt.contains("[NOT LOADED"));
    assert!(prompt.ends_with("### Available skills:\n- test-skill: Test description [NOT LOADED]\n"));
    plugin.do_load_skills(Some(&sandbox(&[])), &load(&["test-skill"])).unwrap();
    let prompt = plugin.prepare_system_prompt().unwrap();
    assert!(prompt.contains("[ALREADY LOADED]"));
    assert!(SkillsPlugin::from_skills(vec![]).prepare_system_prompt().is_none());
}

#[test]
fn test_deterministic_loading_order() {
    let skills = || vec![skill("a", "a", &[], "a content"), skill("b", "b", &[], "b content")];
    let mut p1 = SkillsPlugin::from_skills(skills());
    let r1 = p1.do_load_skills(Some(&sandbox(&[])), &load(&["a", "b"])).unwrap();
    let mut p2 = SkillsPlugin::from_skills(skills());
    let r2 = p2.do_load_skills(Some(&sandbox(&[])), &load(&["b", "a"])).unwrap();
    assert_eq!(r1, r2);
    assert!(text(&r1).find("Skill: a").unwrap() < text(&r1).find("Skill: b").unwrap());
}

#[test]
fn test_load_skills_with_slash_prefix() {
    let mut plugin = SkillsPlugin::from_skills(vec![skill("test-skill", "desc", &[], "content")]);
    let r = plugin.do_load_skills(Some(&sandbox(&[])), &load(&["/test-skill"])).unwrap();
    assert!(text(&r).contains("content"));
    assert!(plugin.is_loaded("test-skill"));
}

#[test]
fn test_load_skill_references() {
    let body = "main content\n\n## References\n- [Extra context](./extra.md)";
    let mut plugin = SkillsPlugin::from_skills(vec![skill("test-skill", "desc", &[], body)]);
    let skills = plugin.available_skills();
    assert_eq!(skills[0].2, vec![Reference { title: "Extra context".into(), path: "extra.md".into() }]);
    let sb = sandbox(&[("/skills/test-skill/extra.md", "reference content")]);
    let input = LoadSkillsInput {
        skills: vec![],
        references: Some(vec![SkillReference { skill: "test-skill".into(), files: vec!["extra.md".into()] }]),
    };
    let r = plugin.do_load_skills(Some(&sb), &input).unwrap();
    assert!(text(&r).contains("reference content"));
    assert!(plugin.is_reference_loaded("test-skill/extra.md"));
}

#[test]
fn test_load_reference_auto_loads_skill() {
    let mut plugin = SkillsPlugin::from_skills(vec![skill("test-skill", "desc", &[], "main skill content")]);
    let sb = sandbox(&[("/skills/test-skill/extra.md", "reference content")]);
    let r = plugin.do_load_reference(Some(&sb), &LoadReferenceInput { path: "test-skill/extra".into() }).unwrap();
    let out = text(&r);
    assert!(out.contains("main skill content"));
    assert!(out.contains("reference content"));
    assert!(plugin.is_loaded("test-skill"));
    assert!(plugin.is_reference_loaded("test-skill/extra.md"));
    let again = plugin.do_load_reference(Some(&sb), &LoadReferenceInput { path: "/test-skill/extra.md".into() }).unwrap();
    assert_eq!(text(&again), "Reference 'test-skill/extra.md' was already loaded.");
}

#[test]
fn reference_errors_are_reported() {
    let mut plugin = SkillsPlugin::from_skills(vec![skill("s", "d", &[], "c")]);
    let bad = plugin.do_load_reference(None, &LoadReferenceInput { path: "nofile".into() }).unwrap_err();
    assert_eq!(bad, "Invalid reference path format 'nofile'. Expected 'skill/file'.");
    let unknown = plugin.do_load_reference(None, &LoadReferenceInput { path: "zz/x".into() }).unwrap_err();
    assert_eq!(unknown, "Skill 'zz' not found for reference loading");
    let nosb = plugin.do_load_reference(None, &LoadReferenceInput { path: "s/x".into() }).unwrap_err();
    assert_eq!(nosb, "No sandbox registered");
    let unread = plugin.do_load_reference(Some(&sandbox(&[])), &LoadReferenceInput { path: "s/x".into() }).unwrap_err();
    assert!(unread.starts_with("Failed to read reference file 'x.md': "));
}

#[test]
fn dependency_cycles_terminate() {
    let plugin = SkillsPlugin::from_skills(vec![
        skill("a", "a", &["b"], "a"),
        skill("b", "b", &["a", "c"], "b"),
        skill("c", "c", &[], "c"),
    ]);
    let deps = plugin.resolve_dependencies(&vec!["a".to_string(), "zz".to_string()]);
    assert_eq!(deps, vec!["c", "b", "a"].into_iter().map(String::from).collect::<Vec<_>>());
}

#[test]
fn later_skill_replaces_earlier_of_the_same_name() {
    let plugin = SkillsPlugin::from_skills(vec![skill("a", "first", &[], ""), skill("a", "second", &[], "")]);
    let list = plugin.available_skills();
    assert_eq!(list.len(), 1);
    assert_eq!(list[0].1, "second");
}

#[test]
fn scripts_are_looked_up_in_the_skill_directory() {
    let plugin = SkillsPlugin::from_skills(vec![skill("test-skill", "desc", &[], "Body")]);
    let input = ExecuteSkillScriptInput { from_skill: "test-skill".into(), binary_name: "hello.sh".into(), args: None };
    let (first, second) = plugin.script_candidates(&input).unwrap();
    assert_eq!(first, "/skills/test-skill/hello.sh");
    assert_eq!(second, "/skills/test-skill/bin/hello.sh");
    let missing = ExecuteSkillScriptInput { from_skill: "nope".into(), binary_name: "x".into(), args: None };
    assert_eq!(
        plugin.script_candidates(&missing).unwrap_err(),
        "Skill 'nope' not found. Ensure it exists in search paths."
    );
    assert_eq!(script_not_found(&input), "Binary 'hello.sh' not found for skill 'test-skill'");
    assert_eq!(script_command("/bin/x", Some("-v a")), "/bin/x -v a");
    assert_eq!(script_command("/bin/x", None), "/bin/x");
}

#[test]
fn skills_tools_are_named() {
    let plugin = SkillsPlugin::from_skills(vec![]);
    assert_eq!(plugin.tool_kind("load"), Ok(SkillTool::Load));
    assert_eq!(plugin.tool_kind("execute"), Ok(SkillTool::Execute));
    assert_eq!(plugin.tool_kind("run").unwrap_err(), "Unknown tool: run");
    let names: Vec<String> = plugin.tool_specs().into_iter().map(|t| t.1).collect();
    assert_eq!(names, vec!["load", "reference", "execute"]);
}

#[test]
fn given_reads_decide_what_references_add() {
    let mut plugin = SkillsPlugin::from_skills(vec![skill("s", "d", &[], "body")]);
    let r = plugin.load_reference_with(&LoadReferenceInput { path: "s/extra".into() }, Ok("EXTRA".into())).unwrap();
    assert_eq!(text(&r), "## Skill: s\nbody\n---\n### Reference: s/extra.md\nEXTRA\n---\n");
    let again = plugin.load_reference_with(&LoadReferenceInput { path: "s/extra".into() }, Ok("ignored".into())).unwrap();
    assert_eq!(text(&again), "Reference 's/extra' was already loaded.");
    let failed = plugin.load_reference_with(&LoadReferenceInput { path: "s/other".into() }, Err("boom".into())).unwrap_err();
    assert_eq!(failed, "Failed to read reference file 'other.md': boom");
    assert!(!plugin.is_reference_loaded("s/other.md"));
}

#[test]
fn given_reads_are_used_in_request_order() {
    let mut plugin = SkillsPlugin::from_skills(vec![skill("a", "d", &[], "A"), skill("b", "d", &[], "B")]);
    let input = LoadSkillsInput {
        skills: vec!["a/one".into()],
        references: Some(vec![SkillReference { skill: "b".into(), files: vec!["two.md".into()] }]),
    };
    let reads = vec![Ok("1".to_string()), Ok("2".to_string())];
    let r = plugin.load_skills_with(&input, &reads).unwrap();
    assert_eq!(
        text(&r),
        "## Skill: a\nA\n---\n### Reference: a/one.md\n1\n---\n## Skill: b\nB\n---\n### Reference: b/two.md\n2\n---\n"
    );
    assert!(plugin.is_loaded("a") && plugin.is_loaded("b"));
}

#[test]
fn resolution_holds_each_needed_skill_once_and_nothing_else() {
    let plugin = SkillsPlugin::from_skills(vec![
        skill("a", "d", &["b", "c"], "A"),
        skill("b", "d", &["c"], "B"),
        skill("c", "d", &["a"], "C"),
        skill("z", "d", &[], "Z"),
    ]);
    let mut got = plugin.resolve_dependencies(&vec!["a".to_string(), "a".to_string()]);
    got.sort();
    assert_eq!(got, vec!["a".to_string(), "b".to_string(), "c".to_string()]);
}
