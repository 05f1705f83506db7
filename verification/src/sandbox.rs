//! Filesystem access for plugins, behind a provider that hosts choose.
use vstd::prelude::*;
use crate::text::push_str;

verus! {

#[verifier::external_type_specification]
#[verifier::external_body]
pub struct ExIoError(std::io::Error);

/// Captured output of a command.
pub struct SandboxOutput {
    pub stdout: String,
    pub stderr: String,
    pub exit_code: i32,
}

/// Why a sandbox operation failed.
#[derive(Debug)]
pub enum SandboxError {
    ReadDenied(String),
    WriteDenied(String),
    CommandDenied(String),
    ExecutionFailed(String),
    Io(std::io::Error),
}

/// Calls `std::io::Error`'s `Display` (`to_string`); the text comes from
/// the operating system, so nothing is promised of it.
#[verifier::external_body]
fn io_error_text(e: &std::io::Error) -> String {
    e.to_string()
}

/// The message of an error that a policy produced (every kind but `Io`).
pub open spec fn denial_text(e: SandboxError) -> Option<Seq<char>> {
    match e {
        SandboxError::ReadDenied(p) => Some("path not allowed for reading: "@ + p@),
        SandboxError::WriteDenied(p) => Some("path not allowed for writing: "@ + p@),
        SandboxError::CommandDenied(c) => Some("command not allowed: "@ + c@),
        SandboxError::ExecutionFailed(m) => Some("execution failed: "@ + m@),
        SandboxError::Io(_) => None,
    }
}

impl SandboxError {
    /// The error's message (its `Display` text in the error's own words).
    pub fn message(&self) -> (s: String)
        ensures
            denial_text(*self) matches Some(t) ==> s@ == t,
            *self is Io ==> s@.len() >= "I/O error: "@.len() && s@.take("I/O error: "@.len() as int) == "I/O error: "@,
    {
        let mut s = String::new();
        match self {
            SandboxError::ReadDenied(p) => {
                push_str(&mut s, "path not allowed for reading: ");
                push_str(&mut s, p.as_str());
            },
            SandboxError::WriteDenied(p) => {
                push_str(&mut s, "path not allowed for writing: ");
                push_str(&mut s, p.as_str());
            },
            SandboxError::CommandDenied(c) => {
                push_str(&mut s, "command not allowed: ");
                push_str(&mut s, c.as_str());
            },
            SandboxError::ExecutionFailed(m) => {
                push_str(&mut s, "execution failed: ");
                push_str(&mut s, m.as_str());
            },
            SandboxError::Io(e) => {
                push_str(&mut s, "I/O error: ");
                let t = io_error_text(e);
                proof {
                    assert((s@ + t@).take("I/O error: "@.len() as int) =~= s@);
                }
                push_str(&mut s, t.as_str());
            },
        }
        s
    }
}

/// A filesystem a sandbox gives access to. Hosts implement it; every
/// operation may deny access or fail.
pub trait FSProvider: Send + Sync {
    /// File contents as text.
    fn read(&self, path: &str) -> Result<String, SandboxError>;

    /// Writes a file, creating parent directories as needed.
    fn write(&self, path: &str, content: &str) -> Result<(), SandboxError>;

    /// Directory entries as `(name, is_dir)` pairs sorted by name.
    fn list(&self, path: &str) -> Result<Vec<(String, bool)>, SandboxError>;

    /// Paths matching a glob pattern.
    fn glob(&self, pattern: &str) -> Result<Vec<String>, SandboxError>;
}

/// Reads through a provider.
fn provider_read(p: &Box<dyn FSProvider>, path: &str) -> Result<String, SandboxError> {
    p.read(path)
}

/// Writes through a provider.
fn provider_write(p: &Box<dyn FSProvider>, path: &str, content: &str) -> Result<(), SandboxError> {
    p.write(path, content)
}

/// Lists a directory through a provider.
fn provider_list(p: &Box<dyn FSProvider>, path: &str) -> Result<Vec<(String, bool)>, SandboxError> {
    p.list(path)
}

/// Expands a glob pattern through a provider.
fn provider_glob(p: &Box<dyn FSProvider>, pattern: &str) -> Result<Vec<String>, SandboxError> {
    p.glob(pattern)
}

/// Calls `f` on two arguments; what it returned is recorded against them.
fn call2<A, B, R, F: Fn(A, B) -> R>(f: F, a: A, b: B) -> (r: R)
    requires
        call_requires(f, (a, b)),
    ensures
        call_ensures(f, (a, b), r),
{
    f(a, b)
}

/// Calls `f` on three arguments; what it returned is recorded against them.
fn call3<A, B, C, R, F: Fn(A, B, C) -> R>(f: F, a: A, b: B, c: C) -> (r: R)
    requires
        call_requires(f, (a, b, c)),
    ensures
        call_ensures(f, (a, b, c), r),
{
    f(a, b, c)
}

/// Shared access to a filesystem provider.
pub struct Sandbox {
    provider: Box<dyn FSProvider>,
}

impl Sandbox {
    /// Whether the provider, asked to read the file at `path`, can answer
    /// `r`.
    pub closed spec fn read_gave(&self, path: Seq<char>, r: Result<String, SandboxError>) -> bool {
        exists|a: &str| a@ == path && call_ensures(provider_read, (&self.provider, a), r)
    }

    /// Whether the provider, asked to write `content` to the file at `path`,
    /// can answer `r`.
    pub closed spec fn write_gave(&self, path: Seq<char>, content: Seq<char>, r: Result<(), SandboxError>) -> bool {
        exists|a: &str, c: &str| a@ == path && c@ == content && call_ensures(provider_write, (&self.provider, a, c), r)
    }

    /// Whether the provider, asked to list the directory at `path`, can
    /// answer `r`.
    pub closed spec fn list_gave(&self, path: Seq<char>, r: Result<Vec<(String, bool)>, SandboxError>) -> bool {
        exists|a: &str| a@ == path && call_ensures(provider_list, (&self.provider, a), r)
    }

    /// Whether the provider, asked to expand the glob `pattern`, can answer
    /// `r`.
    pub closed spec fn glob_gave(&self, pattern: Seq<char>, r: Result<Vec<String>, SandboxError>) -> bool {
        exists|a: &str| a@ == pattern && call_ensures(provider_glob, (&self.provider, a), r)
    }

    /// A sandbox over `provider`.
    pub fn new(provider: Box<dyn FSProvider>) -> Sandbox {
        Sandbox { provider }
    }

    /// Reads a file through the provider.
    pub fn read(&self, path: &str) -> (r: Result<String, SandboxError>)
        ensures
            self.read_gave(path@, r),
    {
        call2(provider_read, &self.provider, path)
    }

    /// Writes a file through the provider.
    pub fn write(&self, path: &str, content: &str) -> (r: Result<(), SandboxError>)
        ensures
            self.write_gave(path@, content@, r),
    {
        call3(provider_write, &self.provider, path, content)
    }

    /// Lists a directory through the provider.
    pub fn list(&self, path: &str) -> (r: Result<Vec<(String, bool)>, SandboxError>)
        ensures
            self.list_gave(path@, r),
    {
        call2(provider_list, &self.provider, path)
    }

    /// Expands a glob pattern through the provider.
    pub fn glob(&self, pattern: &str) -> (r: Result<Vec<String>, SandboxError>)
        ensures
            self.glob_gave(pattern@, r),
    {
        call2(provider_glob, &self.provider, pattern)
    }
}

} // verus!
