use agentsdk::cwd::Cwd;
use std::path::PathBuf;

#[test]
fn resolve_joins_base_for_relative_paths() {
    let cwd = Cwd("/workspaces/proj".to_string());
    assert_eq!(
        PathBuf::from(cwd.resolve("src/lib.rs")),
        PathBuf::from("/workspaces/proj/src/lib.rs")
    );
    assert_eq!(PathBuf::from(cwd.resolve(".")), PathBuf::from("/workspaces/proj"));
}

#[test]
fn resolve_passes_absolute_through() {
    let cwd = Cwd("/workspaces/proj".to_string());
    assert_eq!(PathBuf::from(cwd.resolve("/etc/hosts")), PathBuf::from("/etc/hosts"));
}

#[test]
fn resolve_expands_tilde_outside_base() {
    let home = dirs::home_dir().expect("home exists");
    let cwd = Cwd("/workspaces/proj".to_string());
    assert_eq!(PathBuf::from(cwd.resolve("~/notes.md")), home.join("notes.md"));
    assert_eq!(PathBuf::from(cwd.resolve("~")), home);
}

#[test]
fn resolve_with_known_home_joins_under_it() {
    let cwd = Cwd("/base".to_string());
    assert_eq!(cwd.resolve_with("~/a/b", Some("/home/u")), "/home/u/a/b");
    assert_eq!(cwd.resolve_with("~", Some("/home/u")), "/home/u");
    assert_eq!(cwd.resolve_with("~/x", None), "/base/~/x");
    assert_eq!(cwd.resolve_with("rel", Some("/home/u")), "/base/rel");
}
