use agentsdk::fs::{
    glob_answer, listing_answer, do_glob, do_list, do_read, do_replace, do_write, FileSystemPlugin, FsToolKind, FsTools, GlobInput, ListInput,
    ReadInput, ReadOnlyFileSystemPlugin, ReplaceInput, WriteInput,
};
use agentsdk::json::Json;
use agentsdk::listing::DirListing;
use agentsdk::sandbox::{FSProvider, Sandbox, SandboxError};
use std::collections::{BTreeMap, BTreeSet};
use std::sync::Mutex;

/// A filesystem held in memory: files by path, plus empty directories.
struct MemFs {
    files: Mutex<BTreeMap<String, String>>,
    dirs: Mutex<BTreeSet<String>>,
}

fn norm(p: &str) -> String {
    let mut s = p.to_string();
    while let Some(rest) = s.strip_prefix("./") {
        s = rest.to_string();
    }
    if s == "." {
        s.clear();
    }
    s.trim_end_matches('/').to_string()
}

impl MemFs {
    fn new() -> MemFs {
        MemFs { files: Mutex::new(BTreeMap::new()), dirs: Mutex::new(BTreeSet::new()) }
    }
    fn file(self, p: &str, c: &str) -> MemFs {
        self.files.lock().unwrap().insert(p.to_string(), c.to_string());
        self
    }
    fn dir(self, p: &str) -> MemFs {
        self.dirs.lock().unwrap().insert(p.to_string());
        self
    }
}

impl FSProvider for MemFs {
    fn read(&self, path: &str) -> Result<String, SandboxError> {
        self.files
            .lock()
            .unwrap()
            .get(&norm(path))
            .cloned()
            .ok_or_else(|| SandboxError::ReadDenied(path.to_string()))
    }
    fn write(&self, path: &str, content: &str) -> Result<(), SandboxError> {
        self.files.lock().unwrap().insert(norm(path), content.to_string());
        Ok(())
    }
    fn list(&self, path: &str) -> Result<Vec<(String, bool)>, SandboxError> {
        let p = norm(path);
        let prefix = if p.is_empty() { String::new() } else { format!("{p}/") };
        let mut out: BTreeMap<String, bool> = BTreeMap::new();
        let files = self.files.lock().unwrap();
        let dirs = self.dirs.lock().unwrap();
        for key in files.keys().chain(dirs.iter()) {
            if let Some(rest) = key.strip_prefix(&prefix) {
                match rest.split_once('/') {
                    Some((d, _)) => {
                        out.insert(d.to_string(), true);
                    }
                    None => {
                        let is_dir = dirs.contains(key);
                        out.insert(rest.to_string(), is_dir);
                    }
                }
            }
        }
        Ok(out.into_iter().collect())
    }
    fn glob(&self, pattern: &str) -> Result<Vec<String>, SandboxError> {
        let ext = pattern.strip_prefix('*').unwrap_or(pattern).to_string();
        Ok(self.files.lock().unwrap().keys().filter(|k| !k.contains('/') && k.ends_with(&ext)).cloned().collect())
    }
}

fn content(j: &Json) -> String {
    j.get("content").and_then(|c| c.as_str()).cloned().unwrap_or_default()
}

fn read(sb: &Sandbox, path: &str, start: usize, lines: usize) -> Result<Json, String> {
    do_read(Some(sb), &ReadInput { path: path.into(), start_line: start, lines })
}

#[test]
fn test_read_write() {
    let sb = Sandbox::new(Box::new(MemFs::new()));
    do_write(Some(&sb), &WriteInput { path: "test.txt".into(), content: "hello world".into() }).unwrap();
    let r = read(&sb, "test.txt", 1, 1).unwrap();
    assert_eq!(content(&r), "hello world");
}

#[test]
fn write_reports_bytes_written() {
    let sb = Sandbox::new(Box::new(MemFs::new()));
    let r = do_write(Some(&sb), &WriteInput { path: "u.txt".into(), content: "héllo".into() }).unwrap();
    assert_eq!(r.get("bytes"), Some(&Json::Number("6".into())));
    assert_eq!(r.get("status").and_then(|s| s.as_str()).map(|s| s.as_str()), Some("success"));
    assert_eq!(r.get("path").and_then(|s| s.as_str()).map(|s| s.as_str()), Some("u.txt"));
}

#[test]
fn test_replace() {
    let sb = Sandbox::new(Box::new(MemFs::new()));
    do_write(Some(&sb), &WriteInput { path: "test.txt".into(), content: "hello world".into() }).unwrap();
    do_replace(
        Some(&sb),
        &ReplaceInput { path: "test.txt".into(), old_string: "world".into(), new_string: "rust".into() },
    )
    .unwrap();
    let r = read(&sb, "test.txt", 1, 1).unwrap();
    assert_eq!(content(&r), "hello rust");
}

#[test]
fn replace_refuses_missing_and_ambiguous_strings() {
    let sb = Sandbox::new(Box::new(MemFs::new().file("f.txt", "ab ab ab")));
    let missing = do_replace(
        Some(&sb),
        &ReplaceInput { path: "f.txt".into(), old_string: "zz".into(), new_string: "y".into() },
    );
    assert_eq!(missing.unwrap_err(), "String not found in f.txt");
    let many = do_replace(
        Some(&sb),
        &ReplaceInput { path: "f.txt".into(), old_string: "ab".into(), new_string: "y".into() },
    );
    assert_eq!(
        many.unwrap_err(),
        "String found 3 times in f.txt. Please provide more context to make it unique."
    );
    let unread = do_replace(
        Some(&sb),
        &ReplaceInput { path: "nope.txt".into(), old_string: "a".into(), new_string: "b".into() },
    );
    assert!(unread.unwrap_err().starts_with("Failed to read: "));
}

#[test]
fn read_window_is_clipped_and_defaults_to_ten_lines() {
    let text: String = (1..=12).map(|i| format!("l{i}")).collect::<Vec<_>>().join("\n");
    let sb = Sandbox::new(Box::new(MemFs::new().file("n.txt", &text)));
    let r = read(&sb, "n.txt", 0, 0).unwrap();
    assert_eq!(content(&r), "l1\nl2\nl3\nl4\nl5\nl6\nl7\nl8\nl9\nl10");
    assert_eq!(r.get("start_line"), Some(&Json::Number("1".into())));
    assert_eq!(r.get("end_line"), Some(&Json::Number("10".into())));
    assert_eq!(r.get("total_lines"), Some(&Json::Number("12".into())));
    let tail = read(&sb, "n.txt", 11, 5).unwrap();
    assert_eq!(content(&tail), "l11\nl12");
    let past = read(&sb, "n.txt", 13, 1).unwrap();
    assert_eq!(past, Json::Str("You have already read the full lines".into()));
    let missing = read(&sb, "gone.txt", 1, 1).unwrap_err();
    assert!(missing.starts_with("Failed to read gone.txt: "));
}

#[test]
fn tools_need_a_sandbox() {
    let r = do_read(None, &ReadInput { path: "x".into(), start_line: 1, lines: 1 });
    assert_eq!(r.unwrap_err(), "No sandbox registered");
    let g = do_glob(None, &GlobInput { pattern: "*".into() });
    assert_eq!(g.unwrap_err(), "No sandbox registered");
}

#[test]
fn test_list() {
    let sb = Sandbox::new(Box::new(MemFs::new().file("a.txt", "a").dir("subdir")));
    let r = do_list(Some(&sb), &ListInput { depth: None, path: ".".into() }).unwrap();
    let tree = r.as_str().unwrap();
    assert!(tree.contains("a.txt"));
    assert!(tree.contains("subdir/"));
}

#[test]
fn test_list_merge() {
    let fs = MemFs::new()
        .file("main.rs", "")
        .file("lib.rs", "")
        .file("mod.rs", "")
        .file("README.md", "")
        .file("LICENSE", "")
        .dir("src")
        .dir("tests");
    let sb = Sandbox::new(Box::new(fs));
    let r = do_list(Some(&sb), &ListInput { depth: None, path: ".".into() }).unwrap();
    let tree = r.as_str().unwrap();
    assert!(tree.contains("{lib,main,mod}.rs"), "merge .rs files: {tree}");
    assert!(tree.contains("README.md"), "single .md: {tree}");
    assert!(tree.contains("src/"), "src/ dir: {tree}");
    assert!(tree.contains("tests/"), "tests/ dir: {tree}");
    assert_eq!(tree, ".\nLICENSE\nREADME.md\n{lib,main,mod}.rs\nsrc/\ntests/");
}

#[test]
fn list_nests_by_depth_and_stops_at_the_limit() {
    let fs = MemFs::new().file("top.txt", "").file("d/inner.txt", "").file("d/e/deep.txt", "");
    let sb = Sandbox::new(Box::new(fs));
    let two = do_list(Some(&sb), &ListInput { depth: None, path: ".".into() }).unwrap();
    assert_eq!(two.as_str().unwrap(), ".\ntop.txt\nd/\n  inner.txt\n  e/");
    let one = do_list(Some(&sb), &ListInput { depth: Some(1), path: ".".into() }).unwrap();
    assert_eq!(one.as_str().unwrap(), ".\ntop.txt\nd/");
    let zero = do_list(Some(&sb), &ListInput { depth: Some(0), path: ".".into() }).unwrap();
    assert_eq!(zero.as_str().unwrap(), ".");
    let empty = Sandbox::new(Box::new(MemFs::new()));
    let e = do_list(Some(&empty), &ListInput { depth: None, path: ".".into() }).unwrap();
    assert_eq!(e.as_str().unwrap(), "(empty)");
}

#[test]
fn test_glob() {
    let fs = MemFs::new().file("a.txt", "a").file("b.txt", "b").file("c.rs", "c");
    let sb = Sandbox::new(Box::new(fs));
    let r = do_glob(Some(&sb), &GlobInput { pattern: "*.txt".into() }).unwrap();
    match r.get("matches") {
        Some(Json::Array(ms)) => {
            assert_eq!(ms.len(), 2);
            assert!(ms.iter().any(|m| m.as_str().map(|s| s.as_str()) == Some("a.txt")));
            assert!(ms.iter().any(|m| m.as_str().map(|s| s.as_str()) == Some("b.txt")));
        }
        _ => panic!("matches missing"),
    }
}

#[test]
fn readonly_advertises_exactly_read_ls_glob() {
    let names: Vec<String> = ReadOnlyFileSystemPlugin::new().tool_specs().into_iter().map(|d| d.0).collect();
    assert_eq!(names, vec!["Read", "Ls", "Glob"]);
}

#[test]
fn full_plugin_advertises_five_tools() {
    let specs = FileSystemPlugin::new().tool_specs();
    let names: Vec<&str> = specs.iter().map(|d| d.0.as_str()).collect();
    assert_eq!(names, vec!["Read", "Write", "Edit", "Ls", "Glob"]);
    assert_eq!(specs[2].1, "Surgical search and replace. Fails if old_string is not found or is ambiguous.");
    assert_eq!(FileSystemPlugin::new().name(), "fs");
    assert_eq!(ReadOnlyFileSystemPlugin::new().name(), "fs-readonly");
}

#[test]
fn readonly_rejects_write_and_edit() {
    let p = ReadOnlyFileSystemPlugin::new();
    for tool in ["Write", "Edit"] {
        let err = p.tool_kind(tool).unwrap_err();
        assert!(err.contains("Unknown tool"), "{tool}: {err}");
    }
    let fs = MemFs::new();
    let sb = Sandbox::new(Box::new(fs));
    let mut plugin = ReadOnlyFileSystemPlugin::new();
    let err = plugin
        .run_tool(Some(&sb), FsTools::Write(WriteInput { path: "x.txt".into(), content: "no".into() }))
        .unwrap_err();
    assert_eq!(err, "Unknown tool: Write");
    let err = plugin
        .run_tool(
            Some(&sb),
            FsTools::Replace(ReplaceInput { path: "x.txt".into(), old_string: "a".into(), new_string: "b".into() }),
        )
        .unwrap_err();
    assert_eq!(err, "Unknown tool: Edit");
    assert!(sb.read("x.txt").is_err());
}

#[test]
fn tool_names_map_to_kinds() {
    let p = FileSystemPlugin::new();
    assert_eq!(p.tool_kind("Edit"), Ok(FsToolKind::Replace));
    assert_eq!(p.tool_kind("Ls"), Ok(FsToolKind::Ls));
    assert_eq!(p.tool_kind("Rm").unwrap_err(), "Unknown tool: Rm");
}

#[test]
fn readonly_read_ls_glob_work() {
    let fs = MemFs::new().file("a.txt", "line1\nline2").dir("subdir");
    let sb = Sandbox::new(Box::new(fs));
    let mut plugin = ReadOnlyFileSystemPlugin::new();

    let read = plugin
        .run_tool(Some(&sb), FsTools::Read(ReadInput { path: "a.txt".into(), start_line: 1, lines: 2 }))
        .unwrap();
    assert_eq!(content(&read), "line1\nline2");

    let ls = plugin.run_tool(Some(&sb), FsTools::Ls(ListInput { depth: None, path: ".".into() })).unwrap();
    let tree = ls.as_str().cloned().unwrap();
    assert!(tree.contains("a.txt"), "ls: {tree}");
    assert!(tree.contains("subdir/"), "ls: {tree}");

    let glob = plugin.run_tool(Some(&sb), FsTools::Glob(GlobInput { pattern: "*.txt".into() })).unwrap();
    match glob.get("matches") {
        Some(Json::Array(ms)) => assert_eq!(ms.len(), 1, "glob: {ms:?}"),
        _ => panic!("matches missing"),
    }
}

#[test]
fn glob_answer_lists_the_matches_in_order() {
    let j = glob_answer("*.md", &vec!["b.md".to_string(), "a.md".to_string()]);
    assert_eq!(
        j,
        Json::Object(vec![
            ("pattern".into(), Json::Str("*.md".into())),
            ("matches".into(), Json::Array(vec![Json::Str("b.md".into()), Json::Str("a.md".into())])),
        ])
    );
}

#[test]
fn listing_answer_renders_the_walked_tree() {
    let l = DirListing {
        path: "proj".into(),
        entries: vec![("src".into(), true), ("a.txt".into(), false)],
        children: vec![DirListing { path: "proj/src".into(), entries: vec![], children: vec![] }],
    };
    let tree = listing_answer(&l, 2).as_str().cloned().unwrap();
    assert!(tree.starts_with("proj\n"), "{tree}");
    assert!(tree.contains("src/"), "{tree}");
    assert!(tree.contains("a.txt"), "{tree}");
    assert!(!tree.ends_with('\n'));
}

#[test]
fn read_windows_past_the_last_line_number_are_refused() {
    let ok = FsTools::Read(ReadInput { path: "a".into(), start_line: 1, lines: 2 });
    assert!(agentsdk::fs::call_in_range(&ok));
    let far = FsTools::Read(ReadInput { path: "a".into(), start_line: usize::MAX, lines: 2 });
    assert!(!agentsdk::fs::call_in_range(&far));
    let edge = FsTools::Read(ReadInput { path: "a".into(), start_line: usize::MAX, lines: 1 });
    assert!(agentsdk::fs::call_in_range(&edge));
}

#[test]
fn walk_lists_each_directory_through_the_lister_in_name_order() {
    let asked: Mutex<Vec<String>> = Mutex::new(Vec::new());
    let list = |p: &String| -> Result<Vec<(String, bool)>, SandboxError> {
        asked.lock().unwrap().push(p.clone());
        match p.as_str() {
            "root" => Ok(vec![("b".into(), true), ("x.txt".into(), false), ("a".into(), true)]),
            "root/a" => Ok(vec![("deep".into(), true)]),
            "root/b" => Ok(vec![]),
            _ => Ok(vec![("never".into(), false)]),
        }
    };
    let l = agentsdk::listing::walk(&list, "root".to_string(), 0, 2).ok().unwrap();
    let expected: Vec<String> = vec!["root".into(), "root/a".into(), "root/a/deep".into(), "root/b".into()];
    assert_eq!(*asked.lock().unwrap(), expected);
    assert_eq!(l.children.len(), 2);
    assert_eq!(l.children[0].path, "root/a");
    assert_eq!(l.children[0].entries.len(), 1);
    assert_eq!(l.children[0].children.len(), 1);
    assert_eq!(l.children[0].children[0].path, "root/a/deep");
    assert_eq!(l.children[0].children[0].entries.len(), 1);
    assert!(l.children[0].children[0].children.is_empty());
    assert_eq!(l.children[1].path, "root/b");
}

#[test]
fn walk_fails_with_the_first_failed_listing() {
    let list = |p: &String| -> Result<Vec<(String, bool)>, SandboxError> {
        match p.as_str() {
            "root" => Ok(vec![("a".into(), true), ("b".into(), true)]),
            "root/a" => Err(SandboxError::ReadDenied("root/a".into())),
            _ => Err(SandboxError::ReadDenied("other".into())),
        }
    };
    match agentsdk::listing::walk(&list, "root".to_string(), 0, 2) {
        Err(SandboxError::ReadDenied(p)) => assert_eq!(p, "root/a"),
        _ => panic!("expected the first denial"),
    }
}
