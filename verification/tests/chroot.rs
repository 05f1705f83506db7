use agentsdk::chroot::ChrootSandbox;
use agentsdk::sandbox::SandboxError;

#[test]
fn targets_are_taken_under_the_root() {
    let sb = ChrootSandbox::new("/r/sandbox".into());
    assert_eq!(sb.target("a/b.txt"), "/r/sandbox/a/b.txt");
    assert_eq!(sb.target("/etc/passwd"), "/etc/passwd");
    assert_eq!(sb.full_pattern("*.txt"), "/r/sandbox/*.txt");
    assert_eq!(sb.root(), "/r/sandbox");
}

#[test]
fn escapes_are_refused() {
    assert!(ChrootSandbox::confine("a/b.txt", "/r/sandbox/a/b.txt", "/r/sandbox").is_ok());
    match ChrootSandbox::confine("../escape", "/r/escape", "/r/sandbox") {
        Err(SandboxError::ReadDenied(m)) => assert_eq!(m, "path escapes sandbox root: ../escape"),
        _ => panic!("expected a denial"),
    }
    assert!(ChrootSandbox::confine("x", "/r/sandboxed/x", "/r/sandbox").is_err());
}

#[test]
fn missing_names_are_joined_back() {
    let tail = vec!["c.txt".to_string(), "b".to_string()];
    assert_eq!(ChrootSandbox::rejoin("/r/sandbox", &tail), "/r/sandbox/b/c.txt");
    assert_eq!(ChrootSandbox::rejoin("/r", &vec![]), "/r");
}

#[test]
fn glob_returns_relative_paths() {
    let sb = ChrootSandbox::new("/tmp/sandbox".into());
    assert_eq!(sb.relative("/tmp/sandbox/a.txt"), "a.txt");
    assert_eq!(sb.relative("/tmp/sandbox/sub/b.txt"), "sub/b.txt");
    assert_eq!(sb.relative("/tmp/sandbox"), "");
    assert_eq!(sb.relative("/tmp/other/c.txt"), "/tmp/other/c.txt");
    assert_eq!(sb.relative("/tmp/sandboxed/c.txt"), "/tmp/sandboxed/c.txt");
}
