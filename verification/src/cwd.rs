//! The working directory of a run, against which plugins resolve relative
//! paths.
use vstd::prelude::*;
use crate::paths::{expand_tilde_spec, expand_tilde_with, home_dir, is_abs, join_path, join_spec};

verus! {

/// The run's working directory.
pub struct Cwd(pub String);

/// `path` resolved against `base`: `~` expanded first (against `home`),
/// then an absolute path kept as it is and any other joined onto `base`.
pub open spec fn resolve_spec(base: Seq<char>, path: Seq<char>, home: Option<Seq<char>>) -> Seq<char> {
    join_spec(base, expand_tilde_spec(path, home))
}

impl Cwd {
    /// Resolves `path` against this directory, with `home` as the home
    /// directory.
    pub fn resolve_with(&self, path: &str, home: Option<&str>) -> (r: String)
        ensures
            r@ == resolve_spec(self.0@, path@, match home {
                Some(h) => Some(h@),
                None => None,
            }),
    {
        let e = expand_tilde_with(path, home);
        join_path(self.0.as_str(), e.as_str())
    }

    /// Resolves `path` against this directory, expanding `~` against the
    /// current home directory.
    pub fn resolve(&self, path: &str) -> (r: String)
        ensures
            exists|home: Option<Seq<char>>| r@ == resolve_spec(self.0@, path@, home),
    {
        let home = home_dir();
        match home {
            Some(h) => {
                let r = self.resolve_with(path, Some(h.as_str()));
                assert(r@ == resolve_spec(self.0@, path@, Some(h@)));
                r
            },
            None => {
                let r = self.resolve_with(path, None);
                assert(r@ == resolve_spec(self.0@, path@, None));
                r
            },
        }
    }
}

/// An absolute path resolves to itself, whatever the directory and the
/// home directory.
pub proof fn lemma_absolute_unchanged(base: Seq<char>, path: Seq<char>, home: Option<Seq<char>>)
    requires
        is_abs(path),
    ensures
        resolve_spec(base, path, home) == path,
{
    reveal_strlit("~");
    reveal_strlit("~/");
    assert(path != "~"@);
    assert(!crate::text::has_prefix(path, "~/"@)) by {
        if crate::text::has_prefix(path, "~/"@) {
            assert(path.take(2)[0] == path[0]);
        }
    }
}

} // verus!
